//! Reconciling the staking pools with the SPEC the contract holds.
//!
//! The pools take part as layers: the active lock-period pools, the longest lock
//! first (pools are kept in order of their lock periods, so the last registered
//! active pool leads), then the day-0 pool. A gain of `d` is cut into `m` equal
//! layers, one per pool: layer `i` is shared among the first `i + 1` pools by
//! their balances, so longer locks take part in more layers; what rounding leaves
//! goes to the first pool. A loss is taken from the active pools in proportion to
//! their balances, and the day-0 pool takes the rest.

use vstd::prelude::*;
use crate::error::ContractError;
use crate::gov::state::{State, StatePool, StateView};
use crate::math::{multiply_ratio, ratio};

verus! {

/// Number of active pools.
pub open spec fn active_count(pools: Seq<StatePool>) -> int
    decreases pools.len(),
{
    if pools.len() == 0 {
        0
    } else {
        active_count(pools.drop_last()) + if pools.last().active { 1int } else { 0int }
    }
}

/// Balances of the active pools, from the last one in the list to the first.
pub open spec fn active_balances(pools: Seq<StatePool>) -> Seq<u128>
    decreases pools.len(),
{
    if pools.len() == 0 {
        Seq::empty()
    } else if pools.last().active {
        seq![pools.last().total_balance] + active_balances(pools.drop_last())
    } else {
        active_balances(pools.drop_last())
    }
}

/// The balances of the layers: the active pools, the longest lock first, then day 0.
pub open spec fn layer_balances(s: StateView) -> Seq<u128> {
    active_balances(s.pools).push(s.total_balance)
}

/// The layer of an active pool: the number of active pools after it in the list.
pub open spec fn slot_of(pools: Seq<StatePool>, p: int) -> int {
    active_count(pools) - active_count(pools.take(p + 1))
}

/// `bs[0] + ... + bs[n - 1]`.
pub open spec fn prefix_sum(bs: Seq<u128>, n: int) -> int
    decreases n,
{
    if n <= 0 { 0 } else { prefix_sum(bs, n - 1) + bs[n - 1] }
}

/// What pool `j` takes of layer `i` of a gain `d`: the layer is `d / m` of the gain,
/// shared among the first `i + 1` pools by balance; an empty layer hands out nothing.
pub open spec fn layer_part(d: int, bs: Seq<u128>, j: int, i: int) -> int {
    let total = prefix_sum(bs, i + 1);
    if total > 0 { ratio(d, bs[j] as int, bs.len() * total) } else { 0 }
}

/// What pools `0..n` take of layer `i`.
pub open spec fn layer_parts(d: int, bs: Seq<u128>, i: int, n: int) -> int
    decreases n,
{
    if n <= 0 { 0 } else { layer_parts(d, bs, i, n - 1) + layer_part(d, bs, n - 1, i) }
}

/// What layers `0..n` hand out in all.
pub open spec fn spread(d: int, bs: Seq<u128>, n: int) -> int
    decreases n,
{
    if n <= 0 { 0 } else { spread(d, bs, n - 1) + layer_parts(d, bs, n - 1, n) }
}

/// What pool `j` takes of layers `j..n` (a pool takes part from its own layer on).
pub open spec fn gain_upto(d: int, bs: Seq<u128>, j: int, n: int) -> int
    decreases n - j,
{
    if n <= j { 0 } else { gain_upto(d, bs, j, n - 1) + layer_part(d, bs, j, n - 1) }
}

/// What layer slot `k` gains: its parts of the layers, and for the first slot what
/// rounding left over.
pub open spec fn gain_of(d: int, bs: Seq<u128>, k: int) -> int {
    gain_upto(d, bs, k, bs.len() as int) + if k == 0 { d - spread(d, bs, bs.len() as int) } else { 0 }
}

/// `ratio(d, bs[0], total) + ... + ratio(d, bs[n - 1], total)`.
pub open spec fn part_sum(d: int, bs: Seq<u128>, total: int, n: int) -> int
    decreases n,
{
    if n <= 0 { 0 } else { part_sum(d, bs, total, n - 1) + ratio(d, bs[n - 1] as int, total) }
}

/// What layer slot `k` loses of a loss `d`: the active pools in proportion to
/// their part of all staked SPEC, the day-0 pool (the last slot) the rest.
pub open spec fn loss_of(d: int, bs: Seq<u128>, k: int) -> int {
    let total = prefix_sum(bs, bs.len() as int);
    if k < bs.len() - 1 { ratio(d, bs[k] as int, total) } else { d - part_sum(d, bs, total, bs.len() - 1) }
}

/// The change of layer slot `k` when the balance moves from `s.prev_balance` to `balance`.
pub open spec fn slot_change(s: StateView, balance: u128, k: int) -> int {
    if balance > s.prev_balance {
        gain_of(balance - s.prev_balance, layer_balances(s), k)
    } else {
        loss_of(s.prev_balance - balance, layer_balances(s), k)
    }
}

pub open spec fn moved(b: u128, change: int, gain: bool) -> u128 {
    (if gain { b + change } else { b - change }) as u128
}

/// The state after reconciling with the SPEC balance now (less poll deposits).
pub open spec fn reconciled(s: StateView, balance: u128) -> StateView {
    if balance == s.prev_balance {
        s
    } else {
        let gain = balance > s.prev_balance;
        StateView {
            pools: Seq::new(s.pools.len(), |p: int|
                if s.pools[p].active {
                    StatePool {
                        total_balance: moved(s.pools[p].total_balance, slot_change(s, balance, slot_of(s.pools, p)), gain),
                        ..s.pools[p]
                    }
                } else {
                    s.pools[p]
                }),
            total_balance: moved(s.total_balance, slot_change(s, balance, active_count(s.pools)), gain),
            prev_balance: balance,
            ..s
        }
    }
}

/// Reconciling neither overflows, nor divides by zero, nor takes a pool below zero.
pub open spec fn reconcile_fits(s: StateView, balance: u128) -> bool {
    let bs = layer_balances(s);
    let total = prefix_sum(bs, bs.len() as int);
    let a = active_count(s.pools);
    &&& balance > s.prev_balance ==> {
        &&& bs.len() * total <= u128::MAX
        &&& forall|p: int| 0 <= p < s.pools.len() && (#[trigger] s.pools[p]).active ==>
            s.pools[p].total_balance + slot_change(s, balance, slot_of(s.pools, p)) <= u128::MAX
        &&& s.total_balance + slot_change(s, balance, a) <= u128::MAX
    }
    &&& balance < s.prev_balance ==> {
        &&& 0 < total <= u128::MAX
        &&& forall|p: int| 0 <= p < s.pools.len() && (#[trigger] s.pools[p]).active ==>
            slot_change(s, balance, slot_of(s.pools, p)) <= s.pools[p].total_balance
        &&& 0 <= slot_change(s, balance, a) <= s.total_balance
    }
}

pub(crate) proof fn lemma_prefix_sum_facts(bs: Seq<u128>, n: int)
    requires
        0 <= n <= bs.len(),
    ensures
        prefix_sum(bs, n) >= 0,
        forall|j: int| 0 <= j < n ==> bs[j] <= prefix_sum(bs, n),
        forall|k: int| 0 <= k <= n ==> prefix_sum(bs, k) <= prefix_sum(bs, n),
    decreases n,
{
    if n > 0 {
        lemma_prefix_sum_facts(bs, n - 1);
    }
}

pub(crate) proof fn lemma_active_balances_len(pools: Seq<StatePool>)
    ensures
        active_balances(pools).len() == active_count(pools),
        active_count(pools) >= 0,
    decreases pools.len(),
{
    if pools.len() > 0 {
        lemma_active_balances_len(pools.drop_last());
    }
}

/// Rounded-down parts of `d` with weights `bs[0..n]` over `den` add up to at most
/// the part with the weights' sum.
pub(crate) proof fn lemma_parts_below(d: int, bs: Seq<u128>, den: int, n: int)
    requires
        d >= 0,
        den > 0,
        0 <= n <= bs.len(),
    ensures
        0 <= part_sum(d, bs, den, n) <= ratio(d, prefix_sum(bs, n), den),
    decreases n,
{
    if n > 0 {
        lemma_parts_below(d, bs, den, n - 1);
        lemma_prefix_sum_facts(bs, n - 1);
        let x = d * prefix_sum(bs, n - 1);
        let y = d * bs[n - 1];
        assert(x >= 0 && y >= 0) by (nonlinear_arith)
            requires d >= 0, prefix_sum(bs, n - 1) >= 0, bs[n - 1] >= 0, x == d * prefix_sum(bs, n - 1), y == d * bs[n - 1];
        crate::math::lemma_floor_sum_le(x, y, 0, den);
        assert(x + y == d * prefix_sum(bs, n)) by (nonlinear_arith)
            requires x == d * prefix_sum(bs, n - 1), y == d * bs[n - 1], prefix_sum(bs, n) == prefix_sum(bs, n - 1) + bs[n - 1];
        vstd::arithmetic::div_mod::lemma_div_pos_is_pos(y, den);
    }
}

/// The parts of a layer are the proportional parts over its denominator.
proof fn lemma_layer_parts_are_parts(d: int, bs: Seq<u128>, i: int, n: int)
    requires
        0 <= n <= bs.len(),
    ensures
        prefix_sum(bs, i + 1) > 0 ==> layer_parts(d, bs, i, n) == part_sum(d, bs, bs.len() * prefix_sum(bs, i + 1), n),
        prefix_sum(bs, i + 1) <= 0 ==> layer_parts(d, bs, i, n) == 0,
    decreases n,
{
    if n > 0 {
        lemma_layer_parts_are_parts(d, bs, i, n - 1);
    }
}

pub(crate) proof fn lemma_ratio_mono(d: int, a: int, b: int, den: int)
    requires
        d >= 0,
        0 <= a <= b,
        den > 0,
    ensures
        0 <= ratio(d, a, den) <= ratio(d, b, den),
{
    assert(0 <= d * a <= d * b) by (nonlinear_arith)
        requires d >= 0, 0 <= a <= b;
    vstd::arithmetic::div_mod::lemma_div_is_ordered(d * a, d * b, den);
    vstd::arithmetic::div_mod::lemma_div_pos_is_pos(d * a, den);
}

/// A whole layer is `d / m` of a gain, rounded down.
pub(crate) proof fn lemma_layer_share(d: int, m: int, total: int)
    requires
        d >= 0,
        m > 0,
        total > 0,
    ensures
        ratio(d, total, m * total) == d / m,
{
    vstd::arithmetic::div_mod::lemma_div_denominator(d * total, total, m);
    vstd::arithmetic::div_mod::lemma_div_multiples_vanish(d, total);
    assert(d * total == total * d) by (nonlinear_arith);
    assert(total * m == m * total) by (nonlinear_arith);
}

/// Pools `0..n` take at most `d / m` of a layer, each part non-negative, and each
/// part at most the parts of all the layer's pools.
proof fn lemma_layer_bounds(d: int, bs: Seq<u128>, i: int, n: int)
    requires
        d >= 0,
        0 <= i < bs.len(),
        0 <= n <= i + 1,
    ensures
        0 <= layer_parts(d, bs, i, n) <= d / (bs.len() as int),
        forall|j: int| 0 <= j < n ==> 0 <= #[trigger] layer_part(d, bs, j, i) <= layer_parts(d, bs, i, n),
        layer_parts(d, bs, i, n) <= layer_parts(d, bs, i, i + 1),
    decreases n,
{
    let m = bs.len() as int;
    let total = prefix_sum(bs, i + 1);
    lemma_prefix_sum_facts(bs, i + 1);
    lemma_layer_parts_are_parts(d, bs, i, n);
    lemma_layer_parts_are_parts(d, bs, i, i + 1);
    vstd::arithmetic::div_mod::lemma_div_pos_is_pos(d, m);
    if total > 0 {
        assert(m * total > 0) by (nonlinear_arith)
            requires m > 0, total > 0;
        lemma_parts_below(d, bs, m * total, n);
        lemma_parts_below(d, bs, m * total, i + 1);
        lemma_prefix_sum_facts(bs, n);
        lemma_ratio_mono(d, prefix_sum(bs, n), total, m * total);
        lemma_layer_share(d, m, total);
        lemma_parts_monotone(d, bs, m * total, n, i + 1);
    }
    if n > 0 {
        lemma_layer_bounds(d, bs, i, n - 1);
        if total > 0 {
            assert(m * total > 0) by (nonlinear_arith)
                requires m > 0, total > 0;
            lemma_ratio_mono(d, 0, bs[n - 1] as int, m * total);
        }
    }
}

pub(crate) proof fn lemma_parts_monotone(d: int, bs: Seq<u128>, den: int, n: int, k: int)
    requires
        d >= 0,
        den > 0,
        0 <= n <= k <= bs.len(),
    ensures
        part_sum(d, bs, den, n) <= part_sum(d, bs, den, k),
    decreases k - n,
{
    if n < k {
        lemma_parts_monotone(d, bs, den, n, k - 1);
        lemma_ratio_mono(d, 0, bs[k - 1] as int, den);
    }
}

/// Layers `0..n` hand out at most `n` times `d / m`.
proof fn lemma_spread_bounds(d: int, bs: Seq<u128>, n: int)
    requires
        d >= 0,
        0 <= n <= bs.len(),
    ensures
        0 <= spread(d, bs, n) <= n * (d / (bs.len() as int)),
        n * (d / (bs.len() as int)) <= d,
    decreases n,
{
    let m = bs.len() as int;
    vstd::arithmetic::div_mod::lemma_div_pos_is_pos(d, if m > 0 { m } else { 1 });
    if n > 0 {
        lemma_spread_bounds(d, bs, n - 1);
        lemma_layer_bounds(d, bs, n - 1, n);
        let q = d / m;
        assert((n - 1) * q + q == n * q) by (nonlinear_arith);
    }
    if m > 0 {
        vstd::arithmetic::div_mod::lemma_fundamental_div_mod(d, m);
        vstd::arithmetic::div_mod::lemma_mod_bound(d, m);
        let q = d / m;
        assert(n * q <= d) by (nonlinear_arith)
            requires 0 <= n <= m, q >= 0, d == m * q + d % m, d % m >= 0;
    }
}

/// What a pool takes of layers `0..n` never exceeds what those layers hand out.
proof fn lemma_gain_below_spread(d: int, bs: Seq<u128>, j: int, n: int)
    requires
        d >= 0,
        0 <= j < bs.len(),
        0 <= n <= bs.len(),
    ensures
        0 <= gain_upto(d, bs, j, n) <= spread(d, bs, n),
    decreases n,
{
    if n > 0 {
        lemma_gain_below_spread(d, bs, j, n - 1);
        lemma_layer_bounds(d, bs, n - 1, n);
        lemma_spread_bounds(d, bs, n);
    }
}

/// The changes of all layer slots for a gain of `d`.
fn gain_changes(d: u128, bs: &Vec<u128>) -> (r: Vec<u128>)
    requires
        bs.len() >= 1,
        bs.len() * prefix_sum(bs@, bs.len() as int) <= u128::MAX,
    ensures
        r.len() == bs.len(),
        forall|k: int| 0 <= k < bs.len() ==> #[trigger] r@[k] == gain_of(d as int, bs@, k),
{
    let m = bs.len();
    let mut changes: Vec<u128> = Vec::new();
    let mut k: usize = 0;
    while k < m
        invariant
            k <= m,
            m == bs.len(),
            changes.len() == k,
            forall|x: int| 0 <= x < k ==> #[trigger] changes@[x] == 0,
        decreases m - k,
    {
        changes.push(0);
        k = k + 1;
    }
    proof {
        lemma_prefix_sum_facts(bs@, m as int);
    }
    let mut total: u128 = 0;
    let mut denom: u128 = 0;
    let mut i: usize = 0;
    while i < m
        invariant
            i <= m,
            m == bs.len(),
            m >= 1,
            m * prefix_sum(bs@, m as int) <= u128::MAX,
            forall|x: int| 0 <= x <= m ==> prefix_sum(bs@, x) <= prefix_sum(bs@, m as int),
            denom == m * prefix_sum(bs@, i as int),
            total == spread(d as int, bs@, i as int),
            changes.len() == m,
            forall|x: int| 0 <= x < m ==> #[trigger] changes@[x] == gain_upto(d as int, bs@, x, i as int),
        decreases m - i,
    {
        proof {
            lemma_prefix_sum_facts(bs@, i + 1);
            assert(m * prefix_sum(bs@, i + 1) <= m * prefix_sum(bs@, m as int)) by (nonlinear_arith)
                requires prefix_sum(bs@, i + 1) <= prefix_sum(bs@, m as int), m >= 1;
            assert(m * prefix_sum(bs@, i + 1) == m * prefix_sum(bs@, i as int) + m * bs@[i as int]) by (nonlinear_arith)
                requires prefix_sum(bs@, i + 1) == prefix_sum(bs@, i as int) + bs@[i as int];
        }
        denom = denom + bs[i] * (m as u128);
        proof {
            assert(bs@[i as int] * m == m * bs@[i as int]) by (nonlinear_arith);
            lemma_spread_bounds(d as int, bs@, i + 1);
            lemma_layer_bounds(d as int, bs@, i as int, i + 1);
        }
        if denom != 0 {
            let mut j: usize = 0;
            while j <= i
                invariant
                    i < m,
                    j <= i + 1,
                    m == bs.len(),
                    denom == m * prefix_sum(bs@, i + 1),
                    denom > 0,
                    total == spread(d as int, bs@, i as int) + layer_parts(d as int, bs@, i as int, j as int),
                    spread(d as int, bs@, i + 1) <= d,
                    changes.len() == m,
                    forall|x: int| 0 <= x < j ==> #[trigger] changes@[x] == gain_upto(d as int, bs@, x, i + 1),
                    forall|x: int| j <= x < m ==> #[trigger] changes@[x] == gain_upto(d as int, bs@, x, i as int),
                decreases i + 1 - j,
            {
                proof {
                    assert(prefix_sum(bs@, i + 1) > 0) by (nonlinear_arith)
                        requires denom == m * prefix_sum(bs@, i + 1), denom > 0, m >= 1;
                    lemma_layer_bounds(d as int, bs@, i as int, j + 1);
                    lemma_layer_bounds(d as int, bs@, i as int, i + 1);
                    lemma_gain_below_spread(d as int, bs@, j as int, i + 1);
                    lemma_prefix_sum_facts(bs@, i + 1);
                    assert(bs@[j as int] <= prefix_sum(bs@, i + 1));
                    assert(bs@[j as int] <= denom) by (nonlinear_arith)
                        requires bs@[j as int] <= prefix_sum(bs@, i + 1), denom == m * prefix_sum(bs@, i + 1), m >= 1;
                    crate::math::lemma_ratio_le_value(d as int, bs@[j as int] as int, denom as int);
                }
                let c = multiply_ratio(d, bs[j], denom);
                total = total + c;
                let cj = changes[j];
                changes.set(j, cj + c);
                j = j + 1;
            }
        } else {
            proof {
                assert(prefix_sum(bs@, i + 1) == 0) by (nonlinear_arith)
                    requires denom == m * prefix_sum(bs@, i + 1), denom == 0, m >= 1, prefix_sum(bs@, i + 1) >= 0;
                lemma_layer_parts_are_parts(d as int, bs@, i as int, i + 1);
            }
        }
        i = i + 1;
    }
    proof {
        lemma_spread_bounds(d as int, bs@, m as int);
        lemma_gain_below_spread(d as int, bs@, 0, m as int);
    }
    let c0 = changes[0];
    changes.set(0, c0 + (d - total));
    changes
}

/// The changes of all layer slots for a loss of `d`.
fn loss_changes(d: u128, bs: &Vec<u128>) -> (r: Vec<u128>)
    requires
        bs.len() >= 1,
        0 < prefix_sum(bs@, bs.len() as int) <= u128::MAX,
        0 <= loss_of(d as int, bs@, bs.len() - 1),
    ensures
        r.len() == bs.len(),
        forall|k: int| 0 <= k < bs.len() ==> #[trigger] r@[k] == loss_of(d as int, bs@, k),
{
    let m = bs.len();
    let mut total_balance: u128 = 0;
    let mut k: usize = 0;
    while k < m
        invariant
            k <= m,
            m == bs.len(),
            prefix_sum(bs@, m as int) <= u128::MAX,
            total_balance == prefix_sum(bs@, k as int),
        decreases m - k,
    {
        proof {
            lemma_prefix_sum_facts(bs@, m as int);
            assert(prefix_sum(bs@, k + 1) <= prefix_sum(bs@, m as int));
        }
        total_balance = total_balance + bs[k];
        k = k + 1;
    }
    let mut changes: Vec<u128> = Vec::new();
    let mut taken: u128 = 0;
    let mut j: usize = 0;
    while j < m - 1
        invariant
            j <= m - 1,
            m == bs.len(),
            m >= 1,
            total_balance == prefix_sum(bs@, m as int),
            total_balance > 0,
            taken == part_sum(d as int, bs@, total_balance as int, j as int),
            0 <= loss_of(d as int, bs@, m - 1),
            changes.len() == j,
            forall|x: int| 0 <= x < j ==> #[trigger] changes@[x] == loss_of(d as int, bs@, x),
        decreases m - 1 - j,
    {
        proof {
            lemma_parts_monotone(d as int, bs@, total_balance as int, j + 1, m - 1);
            lemma_prefix_sum_facts(bs@, m as int);
            assert(bs@[j as int] <= prefix_sum(bs@, m as int));
            crate::math::lemma_ratio_le_value(d as int, bs@[j as int] as int, total_balance as int);
            lemma_ratio_mono(d as int, 0, bs@[j as int] as int, total_balance as int);
        }
        let c = multiply_ratio(d, bs[j], total_balance);
        taken = taken + c;
        changes.push(c);
        j = j + 1;
    }
    changes.push(d - taken);
    changes
}

pub(crate) proof fn lemma_slot_of_step(pools: Seq<StatePool>, p: int)
    requires
        0 <= p < pools.len(),
    ensures
        active_count(pools.take(p + 1)) == active_count(pools.take(p)) + if pools[p].active { 1int } else { 0int },
{
    assert(pools.take(p + 1).drop_last() =~= pools.take(p));
}

/// Brings the pools in line with the contract's SPEC balance (less poll deposits):
/// a gain since the last reconciliation is spread in layers, a loss is taken in
/// proportion to the balances.
pub fn reconcile_balance(state: &mut State, balance: u128) -> (r: Result<(), ContractError>)
    requires
        reconcile_fits(old(state)@, balance),
    ensures
        r is Ok,
        final(state)@ == reconciled(old(state)@, balance),
{
    if balance == state.prev_balance {
        return Ok(());
    }
    let ghost s = state@;
    let gain = balance > state.prev_balance;
    let d = if gain { balance - state.prev_balance } else { state.prev_balance - balance };
    let mut bs: Vec<u128> = Vec::new();
    let n = state.pools.len();
    let mut p: usize = 0;
    proof {
        assert(s.pools.take(0) =~= Seq::<StatePool>::empty());
    }
    while p < n
        invariant
            p <= n,
            n == state.pools.len(),
            state@ == s,
            bs@ == active_balances(s.pools.take(p as int)),
        decreases n - p,
    {
        let pool = state.pools[p];
        proof {
            assert(s.pools.take(p + 1).drop_last() =~= s.pools.take(p as int));
            assert(s.pools.take(p + 1).last() == pool);
        }
        if pool.active {
            bs.insert(0, pool.total_balance);
            proof {
                assert(bs@ =~= seq![pool.total_balance] + active_balances(s.pools.take(p as int)));
            }
        }
        p = p + 1;
    }
    proof {
        assert(s.pools.take(n as int) =~= s.pools);
        lemma_active_balances_len(s.pools);
    }
    bs.push(state.total_balance);
    let a = bs.len() - 1;
    let changes = if gain { gain_changes(d, &bs) } else { loss_changes(d, &bs) };
    let mut c: usize = 0;
    p = 0;
    proof {
        assert(s.pools.take(0) =~= Seq::<StatePool>::empty());
    }
    while p < n
        invariant
            p <= n,
            n == state.pools.len(),
            n == s.pools.len(),
            a == active_count(s.pools),
            changes.len() == a + 1,
            forall|k: int| 0 <= k <= a ==> #[trigger] changes@[k] == slot_change(s, balance, k),
            gain == (balance > s.prev_balance),
            balance != s.prev_balance,
            reconcile_fits(s, balance),
            c == active_count(s.pools.take(p as int)),
            c <= a,
            forall|q: int| 0 <= q < p ==> #[trigger] state.pools@[q] == reconciled(s, balance).pools[q],
            forall|q: int| p <= q < n ==> #[trigger] state.pools@[q] == s.pools[q],
            state.contract_addr@ == s.contract_addr,
            state.total_balance == s.total_balance,
            state.prev_balance == s.prev_balance,
            state.poll_count == s.poll_count,
            state.poll_deposit == s.poll_deposit,
            state.last_mint == s.last_mint,
            state.total_weight == s.total_weight,
            state.prev_aust_balance == s.prev_aust_balance,
            state.vault_balances == s.vault_balances,
            state.total_share == s.total_share,
            state.aust_index == s.aust_index,
        decreases n - p,
    {
        proof {
            lemma_slot_of_step(s.pools, p as int);
            lemma_active_count_prefix(s.pools, p + 1);
        }
        let pool = state.pools[p];
        if pool.active {
            let k = a - 1 - c;
            proof {
                assert(slot_of(s.pools, p as int) == k);
                assert(s.pools[p as int].active);
            }
            let ch = changes[k];
            let nb = if gain { pool.total_balance + ch } else { pool.total_balance - ch };
            state.pools.set(p, StatePool { total_balance: nb, ..pool });
            c = c + 1;
        }
        p = p + 1;
    }
    let ch = changes[a];
    state.total_balance = if gain { state.total_balance + ch } else { state.total_balance - ch };
    state.prev_balance = balance;
    proof {
        assert(state.pools@ =~= reconciled(s, balance).pools);
    }
    Ok(())
}

pub(crate) proof fn lemma_active_count_prefix(pools: Seq<StatePool>, k: int)
    requires
        0 <= k <= pools.len(),
    ensures
        0 <= active_count(pools.take(k)) <= active_count(pools),
    decreases pools.len() - k,
{
    if k < pools.len() {
        lemma_active_count_prefix(pools, k + 1);
        lemma_slot_of_step(pools, k);
    } else {
        assert(pools.take(k) =~= pools);
    }
    lemma_active_count_nonneg(pools.take(k));
}

proof fn lemma_active_count_nonneg(pools: Seq<StatePool>)
    ensures
        active_count(pools) >= 0,
    decreases pools.len(),
{
    if pools.len() > 0 {
        lemma_active_count_nonneg(pools.drop_last());
    }
}


/// The changes of layer slots `0..k`.
pub open spec fn changes_sum(s: StateView, balance: u128, k: int) -> int
    decreases k,
{
    if k <= 0 { 0 } else { changes_sum(s, balance, k - 1) + slot_change(s, balance, k - 1) }
}

/// What slots `0..k` take of layers `0..n`.
pub open spec fn gains_sum(d: int, bs: Seq<u128>, n: int, k: int) -> int
    decreases k,
{
    if k <= 0 { 0 } else { gains_sum(d, bs, n, k - 1) + gain_upto(d, bs, k - 1, n) }
}

proof fn lemma_gains_step(d: int, bs: Seq<u128>, n: int, k: int)
    requires
        0 <= n,
        0 <= k,
    ensures
        gains_sum(d, bs, n + 1, k) == gains_sum(d, bs, n, k) + layer_parts(d, bs, n, if k < n + 1 { k } else { n + 1 }),
    decreases k,
{
    if k > 0 {
        lemma_gains_step(d, bs, n, k - 1);
    }
}

proof fn lemma_gains_are_spread(d: int, bs: Seq<u128>, n: int)
    requires
        0 <= n <= bs.len(),
    ensures
        gains_sum(d, bs, n, bs.len() as int) == spread(d, bs, n),
    decreases n,
{
    if n == 0 {
        lemma_gains_zero(d, bs, bs.len() as int);
    } else {
        lemma_gains_are_spread(d, bs, n - 1);
        lemma_gains_step(d, bs, n - 1, bs.len() as int);
    }
}

proof fn lemma_gains_zero(d: int, bs: Seq<u128>, k: int)
    requires
        k >= 0,
    ensures
        gains_sum(d, bs, 0, k) == 0,
    decreases k,
{
    if k > 0 {
        lemma_gains_zero(d, bs, k - 1);
    }
}

proof fn lemma_gain_changes_sum(s: StateView, balance: u128, k: int)
    requires
        balance > s.prev_balance,
        0 <= k <= layer_balances(s).len(),
    ensures
        changes_sum(s, balance, k) == gains_sum(balance - s.prev_balance, layer_balances(s), layer_balances(s).len() as int, k)
            + if k >= 1 { (balance - s.prev_balance) - spread(balance - s.prev_balance, layer_balances(s), layer_balances(s).len() as int) } else { 0 },
    decreases k,
{
    if k > 0 {
        lemma_gain_changes_sum(s, balance, k - 1);
    }
}

proof fn lemma_loss_changes_sum(s: StateView, balance: u128, k: int)
    requires
        balance < s.prev_balance,
        0 <= k < layer_balances(s).len(),
    ensures
        changes_sum(s, balance, k) == part_sum(s.prev_balance - balance, layer_balances(s),
            prefix_sum(layer_balances(s), layer_balances(s).len() as int), k),
    decreases k,
{
    if k > 0 {
        lemma_loss_changes_sum(s, balance, k - 1);
    }
}

/// The layer slots together change by exactly the balance difference.
proof fn lemma_slots_sum_to_difference(s: StateView, balance: u128)
    requires
        balance != s.prev_balance,
    ensures
        changes_sum(s, balance, layer_balances(s).len() as int)
            == if balance > s.prev_balance { balance - s.prev_balance } else { s.prev_balance - balance },
{
    let bs = layer_balances(s);
    let m = bs.len() as int;
    if balance > s.prev_balance {
        lemma_gain_changes_sum(s, balance, m);
        lemma_gains_are_spread(balance - s.prev_balance, bs, m);
    } else {
        lemma_loss_changes_sum(s, balance, m - 1);
    }
}

/// Balance of all lock-period pools together.
pub open spec fn pools_balance_sum(pools: Seq<StatePool>) -> int
    decreases pools.len(),
{
    if pools.len() == 0 { 0 } else { pools_balance_sum(pools.drop_last()) + pools.last().total_balance }
}

/// SPEC staked in all pools, day 0 included.
pub open spec fn staked_total(s: StateView) -> int {
    s.total_balance + pools_balance_sum(s.pools)
}

proof fn lemma_pools_prefix_moved(s: StateView, balance: u128, p: int)
    requires
        balance != s.prev_balance,
        reconcile_fits(s, balance),
        0 <= p <= s.pools.len(),
    ensures
        ({
            let a = active_count(s.pools);
            let moved_by = changes_sum(s, balance, a) - changes_sum(s, balance, a - active_count(s.pools.take(p)));
            pools_balance_sum(reconciled(s, balance).pools.take(p))
                == pools_balance_sum(s.pools.take(p)) + if balance > s.prev_balance { moved_by } else { -moved_by }
        }),
    decreases p,
{
    let r = reconciled(s, balance);
    let a = active_count(s.pools);
    if p == 0 {
        assert(r.pools.take(0) =~= Seq::<StatePool>::empty());
        assert(s.pools.take(0) =~= Seq::<StatePool>::empty());
    } else {
        lemma_pools_prefix_moved(s, balance, p - 1);
        lemma_slot_of_step(s.pools, p - 1);
        assert(r.pools.take(p).drop_last() =~= r.pools.take(p - 1));
        assert(s.pools.take(p).drop_last() =~= s.pools.take(p - 1));
        assert(r.pools.take(p).last() == r.pools[p - 1]);
        assert(s.pools.take(p).last() == s.pools[p - 1]);
        if s.pools[p - 1].active {
            let k = slot_of(s.pools, p - 1);
            assert(k == a - active_count(s.pools.take(p)));
            lemma_active_count_prefix(s.pools, p);
            lemma_active_count_prefix(s.pools, p - 1);
            lemma_active_balances_len(s.pools);
            lemma_slot_change_nonneg(s, balance, k);
            let c = slot_change(s, balance, k);
            let b = s.pools[p - 1].total_balance;
            if balance > s.prev_balance {
                assert(b + c <= u128::MAX);
                assert(r.pools[p - 1].total_balance == b + c);
            } else {
                assert(c <= b);
                assert(r.pools[p - 1].total_balance == b - c);
            }
        }
    }
}

proof fn lemma_slot_change_nonneg(s: StateView, balance: u128, k: int)
    requires
        balance != s.prev_balance,
        reconcile_fits(s, balance),
        0 <= k <= active_count(s.pools),
    ensures
        slot_change(s, balance, k) >= 0,
{
    let bs = layer_balances(s);
    lemma_active_balances_len(s.pools);
    if balance > s.prev_balance {
        let d = balance - s.prev_balance;
        lemma_gain_below_spread(d, bs, k, bs.len() as int);
        lemma_spread_bounds(d, bs, bs.len() as int);
    } else if k < bs.len() - 1 {
        lemma_ratio_mono(s.prev_balance - balance, 0, bs[k] as int, prefix_sum(bs, bs.len() as int));
    }
}

/// Reconciling moves exactly the change of the SPEC balance into the pools: what
/// all pools hold together changes by the new balance less the previous one, and
/// the new balance becomes the previous one.
pub proof fn lemma_reconcile_conserves(s: StateView, balance: u128)
    requires
        reconcile_fits(s, balance),
    ensures
        staked_total(reconciled(s, balance)) == staked_total(s) + balance - s.prev_balance,
        reconciled(s, balance).prev_balance == balance,
{
    if balance != s.prev_balance {
        let a = active_count(s.pools);
        lemma_pools_prefix_moved(s, balance, s.pools.len() as int);
        assert(s.pools.take(s.pools.len() as int) =~= s.pools);
        assert(reconciled(s, balance).pools.take(s.pools.len() as int) =~= reconciled(s, balance).pools);
        lemma_active_balances_len(s.pools);
        lemma_slots_sum_to_difference(s, balance);
        lemma_slot_change_nonneg(s, balance, a);
        assert(s.pools.take(0) =~= Seq::<StatePool>::empty());
        let c = slot_change(s, balance, a);
        assert(changes_sum(s, balance, a + 1) == changes_sum(s, balance, a) + c);
        if balance > s.prev_balance {
            assert(reconciled(s, balance).total_balance == s.total_balance + c);
        } else {
            assert(reconciled(s, balance).total_balance == s.total_balance - c);
        }
    }
}

/// Reconciling again with the same balance changes nothing.
pub proof fn lemma_reconcile_idempotent(s: StateView, balance: u128)
    ensures
        reconciled(reconciled(s, balance), balance) == reconciled(s, balance),
{
}

/// A gain while every layer is empty goes whole to the first layer: the last
/// active pool, or day 0 when no pool is active.
pub proof fn lemma_empty_layers_take_gain_first(s: StateView, balance: u128)
    requires
        balance > s.prev_balance,
        forall|k: int| 0 <= k < layer_balances(s).len() ==> #[trigger] layer_balances(s)[k] == 0,
    ensures
        slot_change(s, balance, 0) == balance - s.prev_balance,
        forall|k: int| 0 < k < layer_balances(s).len() ==> #[trigger] slot_change(s, balance, k) == 0,
{
    let bs = layer_balances(s);
    let d = balance - s.prev_balance;
    assert forall|n: int| 0 <= n <= bs.len() implies #[trigger] prefix_sum(bs, n) == 0 by {
        lemma_prefix_zero(bs, n);
    }
    assert forall|n: int| 0 <= n <= bs.len() implies #[trigger] spread(d, bs, n) == 0 by {
        lemma_spread_zero(d, bs, n);
    }
    assert forall|k: int| 0 <= k < bs.len() implies #[trigger] gain_upto(d, bs, k, bs.len() as int) == 0 by {
        lemma_gain_zero(d, bs, k, bs.len() as int);
    }
}

/// Pools kept in order of their lock periods, each period once.
pub open spec fn sorted_by_days(pools: Seq<StatePool>) -> bool {
    forall|i: int, j: int| 0 <= i < j < pools.len() ==> #[trigger] pools[i].days < #[trigger] pools[j].days
}

proof fn lemma_active_count_mono(pools: Seq<StatePool>, a: int, b: int)
    requires
        0 <= a <= b <= pools.len(),
    ensures
        active_count(pools.take(a)) <= active_count(pools.take(b)),
    decreases b - a,
{
    if a < b {
        lemma_active_count_mono(pools, a, b - 1);
        lemma_slot_of_step(pools, b - 1);
    }
}

/// While the pools are kept in order of their lock periods, the first layer (the
/// one a gain into empty layers goes to whole) is the active pool with the longest
/// lock.
pub proof fn lemma_first_layer_is_longest_lock(pools: Seq<StatePool>, p: int, q: int)
    requires
        sorted_by_days(pools),
        0 <= p < pools.len(),
        0 <= q < pools.len(),
        pools[p].active,
        pools[q].active,
        slot_of(pools, p) == 0,
    ensures
        pools[q].days <= pools[p].days,
{
    if q > p {
        lemma_active_count_mono(pools, p + 1, q);
        lemma_slot_of_step(pools, q);
        lemma_active_count_prefix(pools, q + 1);
        assert(false);
    } else if q < p {
        assert(pools[q].days < pools[p].days);
    }
}

proof fn lemma_prefix_zero(bs: Seq<u128>, n: int)
    requires
        0 <= n <= bs.len(),
        forall|k: int| 0 <= k < bs.len() ==> #[trigger] bs[k] == 0,
    ensures
        prefix_sum(bs, n) == 0,
    decreases n,
{
    if n > 0 {
        lemma_prefix_zero(bs, n - 1);
    }
}

proof fn lemma_spread_zero(d: int, bs: Seq<u128>, n: int)
    requires
        0 <= n <= bs.len(),
        forall|k: int| 0 <= k <= bs.len() ==> #[trigger] prefix_sum(bs, k) == 0,
    ensures
        spread(d, bs, n) == 0,
    decreases n,
{
    if n > 0 {
        lemma_spread_zero(d, bs, n - 1);
        lemma_layer_parts_are_parts(d, bs, n - 1, n);
        assert(prefix_sum(bs, n) == 0);
    }
}

proof fn lemma_gain_zero(d: int, bs: Seq<u128>, j: int, n: int)
    requires
        0 <= j,
        0 <= n <= bs.len(),
        forall|k: int| 0 <= k <= bs.len() ==> #[trigger] prefix_sum(bs, k) == 0,
    ensures
        gain_upto(d, bs, j, n) == 0,
    decreases n - j,
{
    if n > j {
        lemma_gain_zero(d, bs, j, n - 1);
        assert(prefix_sum(bs, n) == 0);
    }
}

} // verus!

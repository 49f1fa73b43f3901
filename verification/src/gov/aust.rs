//! Sharing the aUST the governance contract receives among its staking pools.
//!
//! The pools take part as the same layers as in a SPEC reconciliation: the active
//! lock-period pools, the longest lock first, then the day-0 pool. Each layer is
//! a part of the gain `d` by its weight (a pool's `weight`, one for day 0) among
//! the weights of all layers, and layer `i` is shared among the first `i + 1`
//! pools by their SPEC balances; what rounding leaves goes to the first pool. Each
//! pool turns what it receives into growth of its aUST index per share. The
//! balances are those before the SPEC balance of the same reconciliation moves.

use vstd::prelude::*;
use crate::error::ContractError;
use crate::gov::reconcile::{
    active_balances, active_count, layer_balances, lemma_active_balances_len, lemma_active_count_prefix,
    lemma_layer_share, lemma_parts_below, lemma_parts_monotone, lemma_prefix_sum_facts, lemma_ratio_mono,
    lemma_slot_of_step, part_sum, prefix_sum, reconcile_balance, reconcile_fits, reconciled, slot_of,
};
use crate::gov::state::{State, StatePool, StateView};
use crate::math::{dec_ratio, multiply_ratio, ratio, Decimal, DECIMAL_FRACTIONAL};

verus! {

/// Weights of the active pools, from the last one in the list to the first.
pub open spec fn active_weights(pools: Seq<StatePool>) -> Seq<u32>
    decreases pools.len(),
{
    if pools.len() == 0 {
        Seq::empty()
    } else if pools.last().active {
        seq![pools.last().weight] + active_weights(pools.drop_last())
    } else {
        active_weights(pools.drop_last())
    }
}

/// The weights of the layers: the active pools, the longest lock first, then day 0
/// with weight one.
pub open spec fn layer_weights(s: StateView) -> Seq<u32> {
    active_weights(s.pools).push(1u32)
}

/// `ws[0] + ... + ws[n - 1]`.
pub open spec fn weight_sum(ws: Seq<u32>, n: int) -> int
    decreases n,
{
    if n <= 0 { 0 } else { weight_sum(ws, n - 1) + ws[n - 1] }
}

/// The weight of all layers together.
pub open spec fn all_weight(ws: Seq<u32>) -> int {
    weight_sum(ws, ws.len() as int)
}

/// What pool `j` takes of layer `i` of an aUST gain `d`: the layer is the part
/// `ws[i] / all_weight(ws)` of the gain, shared among the first `i + 1` pools by
/// balance; an empty layer hands out nothing.
pub open spec fn aust_part(d: int, bs: Seq<u128>, ws: Seq<u32>, j: int, i: int) -> int {
    let total = prefix_sum(bs, i + 1);
    if total > 0 { ratio(d * ws[i], bs[j] as int, all_weight(ws) * total) } else { 0 }
}

/// What pools `0..n` take of layer `i`.
pub open spec fn aust_layer_parts(d: int, bs: Seq<u128>, ws: Seq<u32>, i: int, n: int) -> int
    decreases n,
{
    if n <= 0 { 0 } else { aust_layer_parts(d, bs, ws, i, n - 1) + aust_part(d, bs, ws, n - 1, i) }
}

/// What layers `0..n` hand out in all.
pub open spec fn aust_spread(d: int, bs: Seq<u128>, ws: Seq<u32>, n: int) -> int
    decreases n,
{
    if n <= 0 { 0 } else { aust_spread(d, bs, ws, n - 1) + aust_layer_parts(d, bs, ws, n - 1, n) }
}

/// What pool `j` takes of layers `j..n`.
pub open spec fn aust_gain_upto(d: int, bs: Seq<u128>, ws: Seq<u32>, j: int, n: int) -> int
    decreases n - j,
{
    if n <= j { 0 } else { aust_gain_upto(d, bs, ws, j, n - 1) + aust_part(d, bs, ws, j, n - 1) }
}

/// What layer slot `k` gains: its parts of the layers, and for the first slot what
/// rounding left over.
pub open spec fn aust_gain_of(d: int, bs: Seq<u128>, ws: Seq<u32>, k: int) -> int {
    aust_gain_upto(d, bs, ws, k, bs.len() as int) + if k == 0 { d - aust_spread(d, bs, ws, bs.len() as int) } else { 0 }
}

/// The aUST layer slot `k` receives when the contract's aUST balance grows to `aust_balance`.
pub open spec fn aust_slot_gain(s: StateView, aust_balance: u128, k: int) -> int {
    aust_gain_of(aust_balance - s.prev_aust_balance, layer_balances(s), layer_weights(s), k)
}

/// Growth of an aUST index when `amount` aUST goes to `share` shares: none
/// without shares.
pub open spec fn index_gain(amount: int, share: u128) -> int {
    if share == 0 { 0 } else { dec_ratio(amount, share as int) }
}

/// The state after sharing out the aUST the contract holds now: a gain since the
/// last time is shared out, a drop (aUST paid out) is only recorded.
pub open spec fn aust_reconciled(s: StateView, aust_balance: u128) -> StateView {
    if aust_balance <= s.prev_aust_balance {
        StateView { prev_aust_balance: aust_balance, ..s }
    } else {
        StateView {
            pools: Seq::new(s.pools.len(), |p: int|
                if s.pools[p].active {
                    StatePool {
                        aust_index: Decimal {
                            atomics: (s.pools[p].aust_index.atomics
                                + index_gain(aust_slot_gain(s, aust_balance, slot_of(s.pools, p)), s.pools[p].total_share)) as u128,
                        },
                        ..s.pools[p]
                    }
                } else {
                    s.pools[p]
                }),
            aust_index: Decimal {
                atomics: (s.aust_index.atomics + index_gain(aust_slot_gain(s, aust_balance, active_count(s.pools)), s.total_share)) as u128,
            },
            prev_aust_balance: aust_balance,
            ..s
        }
    }
}

/// Sharing out aUST neither overflows nor divides by zero.
pub open spec fn aust_fits(s: StateView, aust_balance: u128) -> bool {
    aust_balance > s.prev_aust_balance ==> {
        &&& all_weight(layer_weights(s)) * prefix_sum(layer_balances(s), layer_balances(s).len() as int) <= u128::MAX
        &&& forall|p: int| 0 <= p < s.pools.len() && (#[trigger] s.pools[p]).active ==>
            s.pools[p].aust_index.atomics + index_gain(aust_slot_gain(s, aust_balance, slot_of(s.pools, p)), s.pools[p].total_share) <= u128::MAX
        &&& s.aust_index.atomics + index_gain(aust_slot_gain(s, aust_balance, active_count(s.pools)), s.total_share) <= u128::MAX
    }
}

proof fn lemma_active_weights_len(pools: Seq<StatePool>)
    ensures
        active_weights(pools).len() == active_count(pools),
    decreases pools.len(),
{
    if pools.len() > 0 {
        lemma_active_weights_len(pools.drop_last());
    }
}

proof fn lemma_weight_sum_facts(ws: Seq<u32>, n: int)
    requires
        0 <= n <= ws.len(),
    ensures
        0 <= weight_sum(ws, n) <= n * 0xffff_ffff,
        forall|j: int| 0 <= j < n ==> ws[j] <= weight_sum(ws, n),
        forall|k: int| 0 <= k <= n ==> weight_sum(ws, k) <= weight_sum(ws, n),
    decreases n,
{
    if n > 0 {
        lemma_weight_sum_facts(ws, n - 1);
    }
}

/// The parts of a layer are the proportional parts of its weighted gain.
proof fn lemma_aust_layer_parts(d: int, bs: Seq<u128>, ws: Seq<u32>, i: int, n: int)
    requires
        0 <= n <= bs.len(),
    ensures
        prefix_sum(bs, i + 1) > 0 ==> aust_layer_parts(d, bs, ws, i, n) == part_sum(d * ws[i], bs, all_weight(ws) * prefix_sum(bs, i + 1), n),
        prefix_sum(bs, i + 1) <= 0 ==> aust_layer_parts(d, bs, ws, i, n) == 0,
    decreases n,
{
    if n > 0 {
        lemma_aust_layer_parts(d, bs, ws, i, n - 1);
    }
}

/// Pools `0..n` take at most layer `i`'s part of the gain, each part non-negative
/// and at most the parts of all the layer's pools.
proof fn lemma_aust_layer_bounds(d: int, bs: Seq<u128>, ws: Seq<u32>, i: int, n: int)
    requires
        d >= 0,
        bs.len() == ws.len(),
        all_weight(ws) > 0,
        0 <= i < bs.len(),
        0 <= n <= i + 1,
    ensures
        0 <= aust_layer_parts(d, bs, ws, i, n) <= (d * ws[i]) / all_weight(ws),
        forall|j: int| 0 <= j < n ==> 0 <= #[trigger] aust_part(d, bs, ws, j, i) <= aust_layer_parts(d, bs, ws, i, n),
        aust_layer_parts(d, bs, ws, i, n) <= aust_layer_parts(d, bs, ws, i, i + 1),
    decreases n,
{
    let w = all_weight(ws);
    let dw = d * ws[i];
    let total = prefix_sum(bs, i + 1);
    assert(dw >= 0) by (nonlinear_arith)
        requires d >= 0, ws[i] >= 0, dw == d * ws[i];
    lemma_prefix_sum_facts(bs, i + 1);
    lemma_aust_layer_parts(d, bs, ws, i, n);
    lemma_aust_layer_parts(d, bs, ws, i, i + 1);
    vstd::arithmetic::div_mod::lemma_div_pos_is_pos(dw, w);
    if total > 0 {
        assert(w * total > 0) by (nonlinear_arith)
            requires w > 0, total > 0;
        lemma_parts_below(dw, bs, w * total, n);
        lemma_parts_below(dw, bs, w * total, i + 1);
        lemma_prefix_sum_facts(bs, n);
        lemma_ratio_mono(dw, prefix_sum(bs, n), total, w * total);
        lemma_layer_share(dw, w, total);
        lemma_parts_monotone(dw, bs, w * total, n, i + 1);
    }
    if n > 0 {
        lemma_aust_layer_bounds(d, bs, ws, i, n - 1);
        if total > 0 {
            assert(w * total > 0) by (nonlinear_arith)
                requires w > 0, total > 0;
            lemma_ratio_mono(dw, 0, bs[n - 1] as int, w * total);
        }
    }
}

/// Layers `0..n` hand out at most their weights' part of the gain, and so all
/// layers together at most the gain.
proof fn lemma_aust_spread_bounds(d: int, bs: Seq<u128>, ws: Seq<u32>, n: int)
    requires
        d >= 0,
        bs.len() == ws.len(),
        all_weight(ws) > 0,
        0 <= n <= bs.len(),
    ensures
        0 <= aust_spread(d, bs, ws, n) <= (d * weight_sum(ws, n)) / all_weight(ws),
        (d * weight_sum(ws, n)) / all_weight(ws) <= d,
    decreases n,
{
    let w = all_weight(ws);
    lemma_weight_sum_facts(ws, ws.len() as int);
    lemma_weight_sum_facts(ws, n);
    assert(0 <= d * weight_sum(ws, n) <= d * w) by (nonlinear_arith)
        requires d >= 0, 0 <= weight_sum(ws, n) <= w;
    vstd::arithmetic::div_mod::lemma_div_is_ordered(d * weight_sum(ws, n), d * w, w);
    vstd::arithmetic::div_mod::lemma_div_by_multiple(d, w);
    vstd::arithmetic::div_mod::lemma_div_pos_is_pos(d * weight_sum(ws, n), w);
    if n > 0 {
        lemma_aust_spread_bounds(d, bs, ws, n - 1);
        lemma_aust_layer_bounds(d, bs, ws, n - 1, n);
        let x = d * weight_sum(ws, n - 1);
        let y = d * ws[n - 1];
        lemma_weight_sum_facts(ws, n - 1);
        assert(x >= 0 && y >= 0) by (nonlinear_arith)
            requires d >= 0, weight_sum(ws, n - 1) >= 0, ws[n - 1] >= 0, x == d * weight_sum(ws, n - 1), y == d * ws[n - 1];
        crate::math::lemma_floor_sum_le(x, y, 0, w);
        assert(x + y == d * weight_sum(ws, n)) by (nonlinear_arith)
            requires x == d * weight_sum(ws, n - 1), y == d * ws[n - 1], weight_sum(ws, n) == weight_sum(ws, n - 1) + ws[n - 1];
    }
}

/// What a pool takes of layers `0..n` never exceeds what those layers hand out.
proof fn lemma_aust_gain_below_spread(d: int, bs: Seq<u128>, ws: Seq<u32>, j: int, n: int)
    requires
        d >= 0,
        bs.len() == ws.len(),
        all_weight(ws) > 0,
        0 <= j < bs.len(),
        0 <= n <= bs.len(),
    ensures
        0 <= aust_gain_upto(d, bs, ws, j, n) <= aust_spread(d, bs, ws, n),
    decreases n,
{
    lemma_aust_spread_bounds(d, bs, ws, n);
    if n > 0 {
        lemma_aust_gain_below_spread(d, bs, ws, j, n - 1);
        lemma_aust_layer_bounds(d, bs, ws, n - 1, n);
    }
}

/// What slots `0..k` take of layers `0..n`.
pub open spec fn aust_gains_sum(d: int, bs: Seq<u128>, ws: Seq<u32>, n: int, k: int) -> int
    decreases k,
{
    if k <= 0 { 0 } else { aust_gains_sum(d, bs, ws, n, k - 1) + aust_gain_upto(d, bs, ws, k - 1, n) }
}

/// What layer slots `0..k` receive of a gain `d`.
pub open spec fn aust_slots_sum(d: int, bs: Seq<u128>, ws: Seq<u32>, k: int) -> int
    decreases k,
{
    if k <= 0 { 0 } else { aust_slots_sum(d, bs, ws, k - 1) + aust_gain_of(d, bs, ws, k - 1) }
}

proof fn lemma_aust_gains_step(d: int, bs: Seq<u128>, ws: Seq<u32>, n: int, k: int)
    requires
        0 <= n,
        0 <= k,
    ensures
        aust_gains_sum(d, bs, ws, n + 1, k) == aust_gains_sum(d, bs, ws, n, k) + aust_layer_parts(d, bs, ws, n, if k < n + 1 { k } else { n + 1 }),
    decreases k,
{
    if k > 0 {
        lemma_aust_gains_step(d, bs, ws, n, k - 1);
    }
}

proof fn lemma_aust_gains_zero(d: int, bs: Seq<u128>, ws: Seq<u32>, k: int)
    requires
        k >= 0,
    ensures
        aust_gains_sum(d, bs, ws, 0, k) == 0,
    decreases k,
{
    if k > 0 {
        lemma_aust_gains_zero(d, bs, ws, k - 1);
    }
}

proof fn lemma_aust_gains_are_spread(d: int, bs: Seq<u128>, ws: Seq<u32>, n: int)
    requires
        0 <= n <= bs.len(),
    ensures
        aust_gains_sum(d, bs, ws, n, bs.len() as int) == aust_spread(d, bs, ws, n),
    decreases n,
{
    if n == 0 {
        lemma_aust_gains_zero(d, bs, ws, bs.len() as int);
    } else {
        lemma_aust_gains_are_spread(d, bs, ws, n - 1);
        lemma_aust_gains_step(d, bs, ws, n - 1, bs.len() as int);
    }
}

proof fn lemma_aust_slots_sum(d: int, bs: Seq<u128>, ws: Seq<u32>, k: int)
    requires
        0 <= k <= bs.len(),
    ensures
        aust_slots_sum(d, bs, ws, k) == aust_gains_sum(d, bs, ws, bs.len() as int, k)
            + if k >= 1 { d - aust_spread(d, bs, ws, bs.len() as int) } else { 0 },
    decreases k,
{
    if k > 0 {
        lemma_aust_slots_sum(d, bs, ws, k - 1);
    }
}

/// Every aUST gained goes to some layer: the layers' shares of a gain add up to it.
pub proof fn lemma_aust_gain_shared_whole(d: int, bs: Seq<u128>, ws: Seq<u32>)
    requires
        bs.len() >= 1,
    ensures
        aust_slots_sum(d, bs, ws, bs.len() as int) == d,
{
    lemma_aust_slots_sum(d, bs, ws, bs.len() as int);
    lemma_aust_gains_are_spread(d, bs, ws, bs.len() as int);
}

/// Sharing out aUST leaves the SPEC side alone: the pools' balances, shares and
/// flags, the day-0 totals and the SPEC balance last counted.
pub proof fn lemma_aust_keeps_spec(s: StateView, aust_balance: u128)
    ensures
        aust_reconciled(s, aust_balance).pools.len() == s.pools.len(),
        forall|p: int| 0 <= p < s.pools.len() ==> {
            &&& (#[trigger] aust_reconciled(s, aust_balance).pools[p]).total_balance == s.pools[p].total_balance
            &&& aust_reconciled(s, aust_balance).pools[p].total_share == s.pools[p].total_share
            &&& aust_reconciled(s, aust_balance).pools[p].active == s.pools[p].active
            &&& aust_reconciled(s, aust_balance).pools[p].days == s.pools[p].days
        },
        aust_reconciled(s, aust_balance).total_balance == s.total_balance,
        aust_reconciled(s, aust_balance).total_share == s.total_share,
        aust_reconciled(s, aust_balance).prev_balance == s.prev_balance,
        aust_reconciled(s, aust_balance).prev_aust_balance == aust_balance,
{
}

/// The aUST of all layer slots for a gain of `d`.
fn aust_gain_changes(d: u128, bs: &Vec<u128>, ws: &Vec<u32>) -> (r: Vec<u128>)
    requires
        bs.len() >= 1,
        ws.len() == bs.len(),
        ws@[ws.len() - 1] == 1,
        all_weight(ws@) * prefix_sum(bs@, bs.len() as int) <= u128::MAX,
    ensures
        r.len() == bs.len(),
        forall|k: int| 0 <= k < bs.len() ==> #[trigger] r@[k] == aust_gain_of(d as int, bs@, ws@, k),
{
    let m = bs.len();
    let mut changes: Vec<u128> = Vec::new();
    let mut k: usize = 0;
    while k < m
        invariant
            k <= m,
            m == bs.len(),
            changes.len() == k,
            forall|x: int| 0 <= x < k ==> #[trigger] changes@[x] == 0,
        decreases m - k,
    {
        changes.push(0);
        k = k + 1;
    }
    proof {
        lemma_prefix_sum_facts(bs@, m as int);
        lemma_weight_sum_facts(ws@, m as int);
        assert(m * 0xffff_ffff <= u128::MAX) by (nonlinear_arith)
            requires m <= usize::MAX;
    }
    let mut w: u128 = 0;
    k = 0;
    while k < m
        invariant
            k <= m,
            m == bs.len(),
            m == ws.len(),
            w == weight_sum(ws@, k as int),
            weight_sum(ws@, m as int) <= m * 0xffff_ffff,
            m * 0xffff_ffff <= u128::MAX,
        decreases m - k,
    {
        proof {
            lemma_weight_sum_facts(ws@, m as int);
            assert(weight_sum(ws@, k + 1) <= weight_sum(ws@, m as int));
        }
        w = w + ws[k] as u128;
        k = k + 1;
    }
    let ghost wt = all_weight(ws@);
    proof {
        assert(ws@[m - 1] <= wt);
        assert(wt > 0);
        assert(prefix_sum(bs@, 0) == 0);
        assert(wt * prefix_sum(bs@, 0) == 0) by (nonlinear_arith)
            requires prefix_sum(bs@, 0) == 0;
    }
    let mut total: u128 = 0;
    let mut denom: u128 = 0;
    let mut i: usize = 0;
    while i < m
        invariant
            i <= m,
            m == bs.len(),
            m == ws.len(),
            m >= 1,
            w == wt,
            wt == all_weight(ws@),
            wt > 0,
            wt * prefix_sum(bs@, m as int) <= u128::MAX,
            forall|x: int| 0 <= x <= m ==> prefix_sum(bs@, x) <= prefix_sum(bs@, m as int),
            forall|x: int| 0 <= x < m ==> ws@[x] <= wt,
            denom == wt * prefix_sum(bs@, i as int),
            total == aust_spread(d as int, bs@, ws@, i as int),
            changes.len() == m,
            forall|x: int| 0 <= x < m ==> #[trigger] changes@[x] == aust_gain_upto(d as int, bs@, ws@, x, i as int),
        decreases m - i,
    {
        proof {
            lemma_prefix_sum_facts(bs@, i + 1);
            assert(wt * prefix_sum(bs@, i + 1) <= wt * prefix_sum(bs@, m as int)) by (nonlinear_arith)
                requires prefix_sum(bs@, i + 1) <= prefix_sum(bs@, m as int), wt > 0;
            assert(wt * prefix_sum(bs@, i + 1) == wt * prefix_sum(bs@, i as int) + wt * bs@[i as int]) by (nonlinear_arith)
                requires prefix_sum(bs@, i + 1) == prefix_sum(bs@, i as int) + bs@[i as int];
        }
        denom = denom + bs[i] * w;
        proof {
            assert(bs@[i as int] * wt == wt * bs@[i as int]) by (nonlinear_arith);
            lemma_aust_spread_bounds(d as int, bs@, ws@, i + 1);
            lemma_aust_layer_bounds(d as int, bs@, ws@, i as int, i + 1);
        }
        if denom != 0 {
            let wi = ws[i] as u128;
            let mut j: usize = 0;
            while j <= i
                invariant
                    i < m,
                    j <= i + 1,
                    m == bs.len(),
                    m == ws.len(),
                    wt == all_weight(ws@),
                    wt > 0,
                    wi == ws@[i as int],
                    wi <= wt,
                    denom == wt * prefix_sum(bs@, i + 1),
                    denom > 0,
                    total == aust_spread(d as int, bs@, ws@, i as int) + aust_layer_parts(d as int, bs@, ws@, i as int, j as int),
                    aust_spread(d as int, bs@, ws@, i + 1) <= d,
                    changes.len() == m,
                    forall|x: int| 0 <= x < j ==> #[trigger] changes@[x] == aust_gain_upto(d as int, bs@, ws@, x, i + 1),
                    forall|x: int| j <= x < m ==> #[trigger] changes@[x] == aust_gain_upto(d as int, bs@, ws@, x, i as int),
                decreases i + 1 - j,
            {
                proof {
                    assert(prefix_sum(bs@, i + 1) > 0) by (nonlinear_arith)
                        requires denom == wt * prefix_sum(bs@, i + 1), denom > 0, wt > 0;
                    lemma_aust_layer_bounds(d as int, bs@, ws@, i as int, j + 1);
                    lemma_aust_layer_bounds(d as int, bs@, ws@, i as int, i + 1);
                    lemma_aust_gain_below_spread(d as int, bs@, ws@, j as int, i + 1);
                    lemma_prefix_sum_facts(bs@, i + 1);
                    assert(bs@[j as int] <= prefix_sum(bs@, i + 1));
                    assert(wi * bs@[j as int] <= denom) by (nonlinear_arith)
                        requires bs@[j as int] <= prefix_sum(bs@, i + 1), denom == wt * prefix_sum(bs@, i + 1), wi <= wt, wi >= 0, bs@[j as int] >= 0;
                    assert(wi * bs@[j as int] >= 0) by (nonlinear_arith)
                        requires wi >= 0, bs@[j as int] >= 0;
                    crate::math::lemma_ratio_le_value(d as int, wi * bs@[j as int], denom as int);
                    assert((d as int) * (wi * bs@[j as int]) == ((d as int) * wi) * bs@[j as int]) by (nonlinear_arith);
                }
                let c = multiply_ratio(d, wi * bs[j], denom);
                total = total + c;
                let cj = changes[j];
                changes.set(j, cj + c);
                j = j + 1;
            }
        } else {
            proof {
                assert(prefix_sum(bs@, i + 1) == 0) by (nonlinear_arith)
                    requires denom == wt * prefix_sum(bs@, i + 1), denom == 0, wt > 0, prefix_sum(bs@, i + 1) >= 0;
                lemma_aust_layer_parts(d as int, bs@, ws@, i as int, i + 1);
            }
        }
        i = i + 1;
    }
    proof {
        lemma_aust_spread_bounds(d as int, bs@, ws@, m as int);
        lemma_aust_gain_below_spread(d as int, bs@, ws@, 0, m as int);
    }
    let c0 = changes[0];
    changes.set(0, c0 + (d - total));
    changes
}

/// Shares out the aUST the contract holds now (`aust_balance`): a gain since the
/// last time grows the pools' aUST indices by layers, a drop is only recorded.
/// It touches nothing but the aUST indices and the recorded aUST balance, so an
/// operation that reconciles the SPEC balance (a stake, a withdrawal, a vote, a
/// mint) is preceded by this call to keep both in step.
pub fn reconcile_aust(state: &mut State, aust_balance: u128)
    requires
        aust_fits(old(state)@, aust_balance),
    ensures
        final(state)@ == aust_reconciled(old(state)@, aust_balance),
{
    if aust_balance <= state.prev_aust_balance {
        state.prev_aust_balance = aust_balance;
        return;
    }
    let ghost s = state@;
    let d = aust_balance - state.prev_aust_balance;
    let mut bs: Vec<u128> = Vec::new();
    let mut ws: Vec<u32> = Vec::new();
    let n = state.pools.len();
    let mut p: usize = 0;
    proof {
        assert(s.pools.take(0) =~= Seq::<StatePool>::empty());
    }
    while p < n
        invariant
            p <= n,
            n == state.pools.len(),
            state@ == s,
            bs@ == active_balances(s.pools.take(p as int)),
            ws@ == active_weights(s.pools.take(p as int)),
        decreases n - p,
    {
        let pool = state.pools[p];
        proof {
            assert(s.pools.take(p + 1).drop_last() =~= s.pools.take(p as int));
            assert(s.pools.take(p + 1).last() == pool);
        }
        if pool.active {
            bs.insert(0, pool.total_balance);
            ws.insert(0, pool.weight);
            proof {
                assert(bs@ =~= seq![pool.total_balance] + active_balances(s.pools.take(p as int)));
                assert(ws@ =~= seq![pool.weight] + active_weights(s.pools.take(p as int)));
            }
        }
        p = p + 1;
    }
    proof {
        assert(s.pools.take(n as int) =~= s.pools);
        lemma_active_balances_len(s.pools);
        lemma_active_weights_len(s.pools);
    }
    bs.push(state.total_balance);
    ws.push(1u32);
    proof {
        assert(bs@ =~= layer_balances(s));
        assert(ws@ =~= layer_weights(s));
    }
    let a = bs.len() - 1;
    let changes = aust_gain_changes(d, &bs, &ws);
    proof {
        lemma_weight_sum_facts(ws@, ws.len() as int);
        assert(ws@[a as int] <= all_weight(ws@));
        assert forall|k: int| 0 <= k <= a implies #[trigger] changes@[k] >= 0 by {
            lemma_aust_gain_below_spread(d as int, bs@, ws@, k, bs.len() as int);
            lemma_aust_spread_bounds(d as int, bs@, ws@, bs.len() as int);
        }
    }
    let mut c: usize = 0;
    p = 0;
    while p < n
        invariant
            p <= n,
            n == state.pools.len(),
            n == s.pools.len(),
            a == active_count(s.pools),
            changes.len() == a + 1,
            forall|k: int| 0 <= k <= a ==> #[trigger] changes@[k] == aust_slot_gain(s, aust_balance, k),
            aust_balance > s.prev_aust_balance,
            aust_fits(s, aust_balance),
            c == active_count(s.pools.take(p as int)),
            c <= a,
            forall|q: int| 0 <= q < p ==> #[trigger] state.pools@[q] == aust_reconciled(s, aust_balance).pools[q],
            forall|q: int| p <= q < n ==> #[trigger] state.pools@[q] == s.pools[q],
            state.contract_addr@ == s.contract_addr,
            state.total_balance == s.total_balance,
            state.prev_balance == s.prev_balance,
            state.poll_count == s.poll_count,
            state.poll_deposit == s.poll_deposit,
            state.last_mint == s.last_mint,
            state.total_weight == s.total_weight,
            state.prev_aust_balance == s.prev_aust_balance,
            state.vault_balances == s.vault_balances,
            state.total_share == s.total_share,
            state.aust_index == s.aust_index,
        decreases n - p,
    {
        proof {
            lemma_slot_of_step(s.pools, p as int);
            lemma_active_count_prefix(s.pools, p + 1);
        }
        let pool = state.pools[p];
        if pool.active {
            let k = a - 1 - c;
            proof {
                assert(slot_of(s.pools, p as int) == k);
                assert(s.pools[p as int].active);
            }
            let amount = changes[k];
            if pool.total_share != 0 {
                proof {
                    vstd::arithmetic::div_mod::lemma_div_pos_is_pos(amount * DECIMAL_FRACTIONAL, pool.total_share as int);
                }
                let gain = Decimal::from_ratio(amount, pool.total_share);
                state.pools.set(p, StatePool { aust_index: pool.aust_index.add(gain), ..pool });
            }
            c = c + 1;
        }
        p = p + 1;
    }
    let amount = changes[a];
    if state.total_share != 0 {
        proof {
            vstd::arithmetic::div_mod::lemma_div_pos_is_pos(amount * DECIMAL_FRACTIONAL, state.total_share as int);
        }
        let gain = Decimal::from_ratio(amount, state.total_share);
        state.aust_index = state.aust_index.add(gain);
    }
    state.prev_aust_balance = aust_balance;
    proof {
        assert(state.pools@ =~= aust_reconciled(s, aust_balance).pools);
    }
}

/// Reconciles the pools with both balances the contract holds, less poll deposits:
/// first the aUST is shared out on the pools' balances as they stand, then the
/// pools follow the SPEC balance.
pub fn reconcile(state: &mut State, balance: u128, aust_balance: u128) -> (r: Result<(), ContractError>)
    requires
        aust_fits(old(state)@, aust_balance),
        reconcile_fits(aust_reconciled(old(state)@, aust_balance), balance),
    ensures
        r is Ok,
        final(state)@ == reconciled(aust_reconciled(old(state)@, aust_balance), balance),
{
    reconcile_aust(state, aust_balance);
    reconcile_balance(state, balance)
}

} // verus!

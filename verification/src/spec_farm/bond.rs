//! Bonding, unbonding and reward withdrawal in the SPEC farm.
//!
//! New gov shares of the farm are spread over the pool weights in the state's
//! index; a pool turns its weight's part into gov shares per bonded LP token, and
//! a position records the pool index it was last settled at.

use vstd::prelude::*;
use crate::common::addr_eq;
use crate::error::ContractError;
use crate::farm::bond::{calc_spec_balance, calc_spec_share, spec_balance_of, spec_share_of, SpecBalance};
use crate::math::{dec_ratio, mul_dec, spec_mul_dec, Decimal};
use crate::spec_farm::state::{PoolInfo, RewardInfo, State};

verus! {

/// The state after the farm's gov shares (`staked_share` now) are spread over the
/// pool weights; a query tolerates a drop in shares, an update refuses it.
pub open spec fn deposited(s: State, staked_share: u128, query: bool) -> Result<State, ContractError> {
    if s.total_weight == 0 {
        Ok(s)
    } else if staked_share < s.previous_spec_share && !query {
        Err(ContractError::Overflow)
    } else {
        let deposit = if staked_share >= s.previous_spec_share { staked_share - s.previous_spec_share } else { 0 };
        Ok(State {
            spec_share_index: Decimal { atomics: (s.spec_share_index.atomics + dec_ratio(deposit, s.total_weight as int)) as u128 },
            previous_spec_share: staked_share,
            ..s
        })
    }
}

pub open spec fn deposit_fits(s: State, staked_share: u128) -> bool {
    (s.total_weight != 0 && staked_share >= s.previous_spec_share) ==> {
        let deposit = staked_share - s.previous_spec_share;
        &&& dec_ratio(deposit, s.total_weight as int) <= u128::MAX
        &&& s.spec_share_index.atomics + dec_ratio(deposit, s.total_weight as int) <= u128::MAX
    }
}

/// Credits the gov shares the farm gained since the last deposit to the index.
pub fn deposit_reward(state: &mut State, staked_share: u128, query: bool) -> (r: Result<(), ContractError>)
    requires
        deposit_fits(*old(state), staked_share),
    ensures
        match deposited(*old(state), staked_share, query) {
            Ok(s) => r is Ok && *final(state) == s,
            Err(e) => r == Err::<(), ContractError>(e) && *final(state) == *old(state),
        },
{
    if state.total_weight == 0 {
        return Ok(());
    }
    let deposit_share = if staked_share >= state.previous_spec_share {
        staked_share - state.previous_spec_share
    } else if query {
        0
    } else {
        return Err(ContractError::Overflow);
    };
    let share_per_weight = Decimal::from_ratio(deposit_share, state.total_weight as u128);
    state.spec_share_index = state.spec_share_index.add(share_per_weight);
    state.previous_spec_share = staked_share;
    Ok(())
}

/// The pool after its weight's part of the new gov shares is spread over its
/// bonded LP tokens.
pub open spec fn rewarded(s: State, p: PoolInfo) -> PoolInfo {
    if p.total_bond_amount == 0 {
        p
    } else {
        let share = (s.spec_share_index.atomics - p.state_spec_share_index.atomics) * p.weight;
        PoolInfo {
            spec_share_index: Decimal { atomics: (p.spec_share_index.atomics + share / (p.total_bond_amount as int)) as u128 },
            state_spec_share_index: s.spec_share_index,
            ..p
        }
    }
}

pub open spec fn reward_fits(s: State, p: PoolInfo) -> bool {
    p.total_bond_amount != 0 ==> {
        let share = (s.spec_share_index.atomics - p.state_spec_share_index.atomics) * p.weight;
        &&& s.spec_share_index.atomics >= p.state_spec_share_index.atomics
        &&& share <= u128::MAX
        &&& p.spec_share_index.atomics + share / (p.total_bond_amount as int) <= u128::MAX
    }
}

/// Brings a pool up to the state's index.
pub fn reward_to_pool(state: &State, pool: &mut PoolInfo)
    requires
        reward_fits(*state, *old(pool)),
    ensures
        *final(pool) == rewarded(*state, *old(pool)),
{
    if pool.total_bond_amount == 0 {
        return;
    }
    let share = (state.spec_share_index.atomics - pool.state_spec_share_index.atomics) * (pool.weight as u128);
    let share_per_bond = share / pool.total_bond_amount;
    pool.spec_share_index = pool.spec_share_index.add(Decimal { atomics: share_per_bond });
    pool.state_spec_share_index = state.spec_share_index;
}

/// The position with the gov shares accrued since it was last settled.
pub open spec fn settled(p: PoolInfo, r: RewardInfo) -> RewardInfo {
    let share = spec_mul_dec(r.bond_amount as int, Decimal { atomics: (p.spec_share_index.atomics - r.spec_share_index.atomics) as u128 });
    RewardInfo { spec_share: (r.spec_share + share) as u128, spec_share_index: p.spec_share_index, ..r }
}

pub open spec fn settle_fits(p: PoolInfo, r: RewardInfo) -> bool {
    &&& p.spec_share_index.atomics >= r.spec_share_index.atomics
    &&& r.spec_share + spec_mul_dec(r.bond_amount as int, Decimal { atomics: (p.spec_share_index.atomics - r.spec_share_index.atomics) as u128 }) <= u128::MAX
}

/// Settles a position before its bond changes.
pub fn before_share_change(pool: &PoolInfo, reward_info: &mut RewardInfo)
    requires
        settle_fits(*pool, *old(reward_info)),
    ensures
        *final(reward_info) == settled(*pool, *old(reward_info)),
{
    let share = mul_dec(reward_info.bond_amount, pool.spec_share_index.sub(reward_info.spec_share_index));
    reward_info.spec_share = reward_info.spec_share + share;
    reward_info.spec_share_index = pool.spec_share_index;
}

/// The state and pool after catching up with the farm's gov shares.
pub open spec fn caught_up(s: State, p: PoolInfo, staked_share: u128) -> Result<(State, PoolInfo), ContractError> {
    match deposited(s, staked_share, false) {
        Err(e) => Err(e),
        Ok(s1) => Ok((s1, rewarded(s1, p))),
    }
}

pub open spec fn caught_up_fits(s: State, p: PoolInfo, staked_share: u128) -> bool {
    &&& deposit_fits(s, staked_share)
    &&& deposited(s, staked_share, false) matches Ok(s1) ==> reward_fits(s1, p)
}

/// A fresh position at the pool's index.
pub open spec fn new_reward_info(p: PoolInfo) -> RewardInfo {
    RewardInfo { spec_share_index: p.spec_share_index, bond_amount: 0, spec_share: 0, accum_spec_share: 0 }
}

pub open spec fn bond_fits(s: State, p: PoolInfo, reward_info: Option<RewardInfo>, amount: u128, staked_share: u128) -> bool {
    let c = if p.total_bond_amount != 0 { caught_up(s, p, staked_share) } else { Ok((s, p)) };
    &&& p.total_bond_amount != 0 ==> caught_up_fits(s, p, staked_share)
    &&& c matches Ok((s1, p1)) ==> {
        let r0 = match reward_info { Some(r) => r, None => new_reward_info(p1) };
        &&& settle_fits(p1, r0)
        &&& p1.total_bond_amount + amount <= u128::MAX
        &&& settled(p1, r0).bond_amount + amount <= u128::MAX
    }
}

/// Bonds `amount` LP tokens, sent by `sender`, which must be the pool's staking
/// token contract. `staked_share` is the farm's gov share count. Returns the
/// updated position.
pub fn bond(
    state: &mut State,
    pool: &mut PoolInfo,
    reward_info: Option<RewardInfo>,
    staking_token: &Vec<u8>,
    sender: &Vec<u8>,
    amount: u128,
    staked_share: u128,
) -> (r: Result<RewardInfo, ContractError>)
    requires
        bond_fits(*old(state), *old(pool), reward_info, amount, staked_share),
    ensures
        ({
            let s = *old(state);
            let p = *old(pool);
            if staking_token@ != sender@ {
                r == Err::<RewardInfo, ContractError>(ContractError::Unauthorized) && *final(state) == s && *final(pool) == p
            } else {
                match if p.total_bond_amount != 0 { caught_up(s, p, staked_share) } else { Ok((s, p)) } {
                    Err(e) => r == Err::<RewardInfo, ContractError>(e) && *final(state) == s && *final(pool) == p,
                    Ok((s1, p1)) => {
                        let r1 = settled(p1, match reward_info { Some(x) => x, None => new_reward_info(p1) });
                        &&& *final(state) == s1
                        &&& *final(pool) == PoolInfo { total_bond_amount: (p1.total_bond_amount + amount) as u128, ..p1 }
                        &&& r == Ok::<RewardInfo, ContractError>(RewardInfo { bond_amount: (r1.bond_amount + amount) as u128, ..r1 })
                    },
                }
            }
        }),
{
    if !addr_eq(staking_token, sender) {
        return Err(ContractError::Unauthorized);
    }
    if pool.total_bond_amount != 0 {
        deposit_reward(state, staked_share, false)?;
        reward_to_pool(state, pool);
    }
    let mut reward = match reward_info {
        Some(x) => x,
        None => RewardInfo { spec_share_index: pool.spec_share_index, bond_amount: 0, spec_share: 0, accum_spec_share: 0 },
    };
    before_share_change(pool, &mut reward);
    pool.total_bond_amount = pool.total_bond_amount + amount;
    reward.bond_amount = reward.bond_amount + amount;
    Ok(reward)
}

pub open spec fn unbond_fits(s: State, p: PoolInfo, r: RewardInfo, staked_share: u128) -> bool {
    &&& caught_up_fits(s, p, staked_share)
    &&& caught_up(s, p, staked_share) matches Ok((s1, p1)) ==> settle_fits(p1, r)
}

/// Unbonds `amount` LP tokens of a position. Returns whether the position is now
/// empty and is removed.
pub fn unbond(state: &mut State, pool: &mut PoolInfo, reward_info: &mut RewardInfo, amount: u128, staked_share: u128) -> (r: Result<bool, ContractError>)
    requires
        unbond_fits(*old(state), *old(pool), *old(reward_info), staked_share),
    ensures
        ({
            let s = *old(state);
            let p = *old(pool);
            let ri = *old(reward_info);
            if ri.bond_amount < amount {
                r == Err::<bool, ContractError>(ContractError::UnbondTooMuch) && *final(state) == s && *final(pool) == p && *final(reward_info) == ri
            } else {
                match caught_up(s, p, staked_share) {
                    Err(e) => r == Err::<bool, ContractError>(e) && *final(state) == s && *final(pool) == p && *final(reward_info) == ri,
                    Ok((s1, p1)) => {
                        let r1 = settled(p1, ri);
                        if p1.total_bond_amount < amount {
                            r == Err::<bool, ContractError>(ContractError::Overflow)
                                && *final(state) == s && *final(pool) == p && *final(reward_info) == ri
                        } else {
                            let r2 = RewardInfo { bond_amount: (r1.bond_amount - amount) as u128, ..r1 };
                            &&& *final(state) == s1
                            &&& *final(pool) == PoolInfo { total_bond_amount: (p1.total_bond_amount - amount) as u128, ..p1 }
                            &&& *final(reward_info) == r2
                            &&& r == Ok::<bool, ContractError>(r2.spec_is_empty())
                        }
                    },
                }
            }
        }),
{
    if reward_info.bond_amount < amount {
        return Err(ContractError::UnbondTooMuch);
    }
    let state0 = *state;
    let pool0 = *pool;
    let reward0 = *reward_info;
    deposit_reward(state, staked_share, false)?;
    reward_to_pool(state, pool);
    before_share_change(pool, reward_info);
    if pool.total_bond_amount < amount {
        *state = state0;
        *pool = pool0;
        *reward_info = reward0;
        return Err(ContractError::Overflow);
    }
    pool.total_bond_amount = pool.total_bond_amount - amount;
    reward_info.bond_amount = reward_info.bond_amount - amount;
    Ok(reward_info.is_empty())
}

/// A staker's position together with its pool.
#[derive(Clone, Copy, Debug, PartialEq, Eq, Structural)]
pub struct PoolReward {
    pub pool: PoolInfo,
    pub reward_info: RewardInfo,
}

/// What withdrawing from one position takes out.
#[derive(Clone, Copy, Debug, PartialEq, Eq, Structural)]
pub struct Withdrawn {
    pub item: PoolReward,
    pub spec_share: u128,
    pub spec_amount: u128,
    pub request_left: Option<u128>,
}

/// Withdrawing from one position: the pool catches up, the position is settled,
/// and its gov shares go out, all of them or as many as the request (capped at
/// what the position holds) needs, rounded up.
pub open spec fn withdraw_item(s: State, it: PoolReward, staked: SpecBalance, request: Option<u128>) -> Result<Withdrawn, ContractError> {
    let p1 = rewarded(s, it.pool);
    let r1 = settled(p1, it.reward_info);
    match request {
        None => Ok(Withdrawn {
            item: PoolReward { pool: p1, reward_info: RewardInfo { spec_share: 0, ..r1 } },
            spec_share: r1.spec_share,
            spec_amount: spec_balance_of(r1.spec_share as int, staked) as u128,
            request_left: None,
        }),
        Some(req) => {
            let avail = spec_balance_of(r1.spec_share as int, staked);
            let amount = if req > avail { avail } else { req as int };
            let share = crate::farm::withdraw::shares_to_take(amount, staked);
            if share > r1.spec_share {
                Err(ContractError::Overflow)
            } else {
                Ok(Withdrawn {
                    item: PoolReward { pool: p1, reward_info: RewardInfo { spec_share: (r1.spec_share - share) as u128, ..r1 } },
                    spec_share: share as u128,
                    spec_amount: amount as u128,
                    request_left: Some((req - amount) as u128),
                })
            }
        },
    }
}

pub open spec fn withdraw_item_fits(s: State, it: PoolReward, staked: SpecBalance, request: Option<u128>) -> bool {
    let p1 = rewarded(s, it.pool);
    let r1 = settled(p1, it.reward_info);
    let avail = spec_balance_of(r1.spec_share as int, staked);
    &&& reward_fits(s, it.pool)
    &&& settle_fits(p1, it.reward_info)
    &&& avail <= u128::MAX
    &&& request matches Some(req) ==> {
        let amount = if req > avail { avail } else { req as int };
        &&& spec_share_of(amount, staked) < u128::MAX
        &&& spec_balance_of(spec_share_of(amount, staked), staked) <= u128::MAX
    }
}

/// Withdraws from one position.
pub fn withdraw_one(state: &State, it: PoolReward, staked: &SpecBalance, request: Option<u128>) -> (r: Result<Withdrawn, ContractError>)
    requires
        withdraw_item_fits(*state, it, *staked, request),
    ensures
        r == withdraw_item(*state, it, *staked, request),
{
    let mut pool = it.pool;
    let mut reward_info = it.reward_info;
    reward_to_pool(state, &mut pool);
    before_share_change(&pool, &mut reward_info);
    match request {
        None => {
            let share = reward_info.spec_share;
            let amount = calc_spec_balance(share, staked);
            reward_info.spec_share = 0;
            Ok(Withdrawn { item: PoolReward { pool, reward_info }, spec_share: share, spec_amount: amount, request_left: None })
        },
        Some(req) => {
            let avail = calc_spec_balance(reward_info.spec_share, staked);
            let amount = if req > avail { avail } else { req };
            let mut share = calc_spec_share(amount, staked);
            if calc_spec_balance(share, staked) < amount {
                share = share + 1;
            }
            if share > reward_info.spec_share {
                return Err(ContractError::Overflow);
            }
            reward_info.spec_share = reward_info.spec_share - share;
            Ok(Withdrawn { item: PoolReward { pool, reward_info }, spec_share: share, spec_amount: amount, request_left: Some(req - amount) })
        },
    }
}

/// Withdrawing from `items` in order: the positions after it, the gov shares and
/// SPEC taken out, and what is left of the request.
pub open spec fn withdraw_fold(s: State, items: Seq<PoolReward>, staked: SpecBalance, request: Option<u128>) -> Result<(Seq<PoolReward>, int, int, Option<u128>), ContractError>
    decreases items.len(),
{
    if items.len() == 0 {
        Ok((Seq::empty(), 0, 0, request))
    } else {
        match withdraw_fold(s, items.drop_last(), staked, request) {
            Err(e) => Err(e),
            Ok((done, share, amount, req)) => match withdraw_item(s, items.last(), staked, req) {
                Err(e) => Err(e),
                Ok(w) => Ok((done.push(w.item), share + w.spec_share, amount + w.spec_amount, w.request_left)),
            },
        }
    }
}

pub open spec fn withdraw_fits(s: State, items: Seq<PoolReward>, staked: SpecBalance, request: Option<u128>) -> bool
    decreases items.len(),
{
    items.len() == 0 || {
        &&& withdraw_fits(s, items.drop_last(), staked, request)
        &&& withdraw_fold(s, items.drop_last(), staked, request) matches Ok((_, share, amount, req)) ==> {
            &&& withdraw_item_fits(s, items.last(), staked, req)
            &&& withdraw_item(s, items.last(), staked, req) matches Ok(w) ==>
                share + w.spec_share <= u128::MAX && amount + w.spec_amount <= u128::MAX
        }
    }
}

/// A whole withdrawal; a request for more SPEC than the positions hold is refused.
pub open spec fn withdrawn_all(s: State, items: Seq<PoolReward>, staked: SpecBalance, request: Option<u128>) -> Result<(Seq<PoolReward>, int, int), ContractError> {
    match withdraw_fold(s, items, staked, request) {
        Err(e) => Err(e),
        Ok((done, share, amount, req)) => if req matches Some(left) && left != 0 {
            Err(ContractError::WithdrawExceedsReward)
        } else {
            Ok((done, share, amount))
        },
    }
}

proof fn lemma_fold_error_propagates(s: State, items: Seq<PoolReward>, staked: SpecBalance, request: Option<u128>, k: int, n: int)
    requires
        0 <= k <= n <= items.len(),
        withdraw_fold(s, items.take(k), staked, request) is Err,
    ensures
        withdraw_fold(s, items.take(n), staked, request) == withdraw_fold(s, items.take(k), staked, request),
    decreases n - k,
{
    if n > k {
        lemma_fold_error_propagates(s, items, staked, request, k, n - 1);
        assert(items.take(n).drop_last() =~= items.take(n - 1));
    }
}

proof fn lemma_fits_prefix(s: State, items: Seq<PoolReward>, staked: SpecBalance, request: Option<u128>, k: int)
    requires
        0 <= k <= items.len(),
        withdraw_fits(s, items, staked, request),
    ensures
        withdraw_fits(s, items.take(k), staked, request),
    decreases items.len() - k,
{
    if k < items.len() {
        lemma_fits_prefix(s, items.drop_last(), staked, request, k);
        assert(items.drop_last().take(k) =~= items.take(k));
    } else {
        assert(items.take(k) =~= items);
    }
}

/// Withdraws SPEC rewards from a staker's positions in order: all of them, or
/// `request` SPEC taken from the positions in turn. Returns the positions after
/// the withdrawal, the gov shares and the SPEC taken out.
pub fn withdraw_reward(state: &State, items: &Vec<PoolReward>, staked: &SpecBalance, request: Option<u128>) -> (r: Result<(Vec<PoolReward>, u128, u128), ContractError>)
    requires
        withdraw_fits(*state, items@, *staked, request),
    ensures
        match withdrawn_all(*state, items@, *staked, request) {
            Err(e) => r == Err::<(Vec<PoolReward>, u128, u128), ContractError>(e),
            Ok((done, share, amount)) => r matches Ok((v, sh, am)) && v@ == done && sh == share && am == amount,
        },
{
    let mut done: Vec<PoolReward> = Vec::new();
    let mut share: u128 = 0;
    let mut amount: u128 = 0;
    let mut req = request;
    let mut i: usize = 0;
    proof {
        assert(items@.take(0) =~= Seq::<PoolReward>::empty());
    }
    while i < items.len()
        invariant
            i <= items.len(),
            withdraw_fits(*state, items@, *staked, request),
            withdraw_fold(*state, items@.take(i as int), *staked, request)
                == Ok::<(Seq<PoolReward>, int, int, Option<u128>), ContractError>((done@, share as int, amount as int, req)),
        decreases items.len() - i,
    {
        proof {
            lemma_fits_prefix(*state, items@, *staked, request, i + 1);
            assert(items@.take(i + 1).drop_last() =~= items@.take(i as int));
            assert(items@.take(i + 1).last() == items@[i as int]);
        }
        let w = match withdraw_one(state, items[i], staked, req) {
            Ok(w) => w,
            Err(e) => {
                proof {
                    lemma_fold_error_propagates(*state, items@, *staked, request, i + 1, items.len() as int);
                    assert(items@.take(items.len() as int) =~= items@);
                }
                return Err(e);
            },
        };
        share = share + w.spec_share;
        amount = amount + w.spec_amount;
        req = w.request_left;
        done.push(w.item);
        i = i + 1;
    }
    proof {
        assert(items@.take(items.len() as int) =~= items@);
    }
    if let Some(left) = req {
        if left != 0 {
            return Err(ContractError::WithdrawExceedsReward);
        }
    }
    Ok((done, share, amount))
}

/// The farm's state after a withdrawal of `share` gov shares.
pub fn deduct_withdrawn(state: &mut State, share: u128) -> (r: Result<(), ContractError>)
    ensures
        old(state).previous_spec_share >= share ==> r is Ok && *final(state) == (State { previous_spec_share: (old(state).previous_spec_share - share) as u128, ..*old(state) }),
        old(state).previous_spec_share < share ==> r == Err::<(), ContractError>(ContractError::Overflow) && *final(state) == *old(state),
{
    if state.previous_spec_share < share {
        return Err(ContractError::Overflow);
    }
    state.previous_spec_share = state.previous_spec_share - share;
    Ok(())
}


/// Settling twice in a row accrues nothing the second time.
pub proof fn lemma_settle_idempotent(p: PoolInfo, r: RewardInfo)
    requires
        settle_fits(p, r),
    ensures
        settled(p, settled(p, r)) == settled(p, r),
{
    crate::math::lemma_ratio_zero(r.bond_amount as int, 0, crate::math::DECIMAL_FRACTIONAL as int);
}

/// Bonding an amount and unbonding it again leaves the position's bond and the
/// pool's total as they were after settling.
pub proof fn lemma_unbond_undoes_bond(p: PoolInfo, r: RewardInfo, amount: u128)
    requires
        p.total_bond_amount + amount <= u128::MAX,
        r.bond_amount + amount <= u128::MAX,
    ensures
        ({
            let p1 = PoolInfo { total_bond_amount: (p.total_bond_amount + amount) as u128, ..p };
            let r1 = RewardInfo { bond_amount: (r.bond_amount + amount) as u128, ..r };
            &&& r1.bond_amount >= amount && p1.total_bond_amount >= amount
            &&& PoolInfo { total_bond_amount: (p1.total_bond_amount - amount) as u128, ..p1 } == p
            &&& RewardInfo { bond_amount: (r1.bond_amount - amount) as u128, ..r1 } == r
        }),
{
}


/// A position as a reward query reports it.
#[derive(Clone, Copy, Debug, PartialEq, Eq, Structural)]
pub struct RewardReport {
    pub bond_amount: u128,
    pub spec_share: u128,
    /// SPEC its pending gov shares are worth.
    pub pending_spec_reward: u128,
    /// The position's index before settling.
    pub spec_share_index: Decimal,
}

pub open spec fn reported(s: State, it: PoolReward, staked: SpecBalance) -> RewardReport {
    let r1 = settled(rewarded(s, it.pool), it.reward_info);
    RewardReport {
        bond_amount: r1.bond_amount,
        spec_share: r1.spec_share,
        pending_spec_reward: spec_balance_of(r1.spec_share as int, staked) as u128,
        spec_share_index: it.reward_info.spec_share_index,
    }
}

pub open spec fn report_fits(s: State, it: PoolReward, staked: SpecBalance) -> bool {
    let p1 = rewarded(s, it.pool);
    &&& reward_fits(s, it.pool)
    &&& settle_fits(p1, it.reward_info)
    &&& spec_balance_of(settled(p1, it.reward_info).spec_share as int, staked) <= u128::MAX
}

/// Reports a position with its pending reward brought up to date, without
/// changing it.
pub fn reward_report(state: &State, it: PoolReward, staked: &SpecBalance) -> (r: RewardReport)
    requires
        report_fits(*state, it, *staked),
    ensures
        r == reported(*state, it, *staked),
{
    let mut pool = it.pool;
    let mut reward_info = it.reward_info;
    reward_to_pool(state, &mut pool);
    before_share_change(&pool, &mut reward_info);
    RewardReport {
        bond_amount: reward_info.bond_amount,
        spec_share: reward_info.spec_share,
        pending_spec_reward: calc_spec_balance(reward_info.spec_share, staked),
        spec_share_index: it.reward_info.spec_share_index,
    }
}


/// New gov shares are never spread beyond themselves: the growth of the index
/// times the total weight is at most the new shares, in atomics.
pub proof fn lemma_deposit_not_over_spread(s: State, staked_share: u128)
    requires
        deposit_fits(s, staked_share),
        s.total_weight != 0,
        staked_share >= s.previous_spec_share,
    ensures
        (deposited(s, staked_share, false)->Ok_0.spec_share_index.atomics - s.spec_share_index.atomics) * s.total_weight
            <= (staked_share - s.previous_spec_share) * (crate::math::DECIMAL_FRACTIONAL as int),
{
    let x = (staked_share - s.previous_spec_share) * (crate::math::DECIMAL_FRACTIONAL as int);
    assert((staked_share - s.previous_spec_share) * (1_000_000_000_000_000_000int) >= 0) by (nonlinear_arith)
        requires staked_share >= s.previous_spec_share;
    crate::math::lemma_floor_times_le(x, s.total_weight as int);
}

/// A pool never spreads more than its weight's part of the new index: the growth
/// of its index times its bonded LP tokens is at most that part, in atomics.
pub proof fn lemma_pool_reward_not_over_spread(s: State, p: PoolInfo)
    requires
        reward_fits(s, p),
        p.total_bond_amount != 0,
    ensures
        (rewarded(s, p).spec_share_index.atomics - p.spec_share_index.atomics) * p.total_bond_amount
            <= (s.spec_share_index.atomics - p.state_spec_share_index.atomics) * p.weight,
{
    let share = (s.spec_share_index.atomics - p.state_spec_share_index.atomics) * p.weight;
    assert(share >= 0) by (nonlinear_arith)
        requires
            share == (s.spec_share_index.atomics - p.state_spec_share_index.atomics) * p.weight,
            s.spec_share_index.atomics >= p.state_spec_share_index.atomics,
    ;
    crate::math::lemma_floor_times_le(share, p.total_bond_amount as int);
}


/// Catching a pool up spreads its weight's part of the new gov shares (the growth
/// of the state's index times the pool's weight) evenly over its bonded LP tokens:
/// the pool's index grows by the part per token, rounded down, so the tokens
/// together take all of it but the rounding, which is less than one per token.
pub proof fn lemma_pool_reward_spread_whole(s: State, p: PoolInfo)
    requires
        reward_fits(s, p),
        p.total_bond_amount != 0,
    ensures
        ({
            let share = (s.spec_share_index.atomics - p.state_spec_share_index.atomics) * p.weight;
            let g = rewarded(s, p).spec_share_index.atomics - p.spec_share_index.atomics;
            &&& g * p.total_bond_amount <= share
            &&& share < (g + 1) * p.total_bond_amount
            &&& rewarded(s, p).state_spec_share_index == s.spec_share_index
        }),
{
    let share = (s.spec_share_index.atomics - p.state_spec_share_index.atomics) * p.weight;
    let n = p.total_bond_amount as int;
    assert(share >= 0) by (nonlinear_arith)
        requires
            share == (s.spec_share_index.atomics - p.state_spec_share_index.atomics) * p.weight,
            s.spec_share_index.atomics >= p.state_spec_share_index.atomics,
    ;
    vstd::arithmetic::div_mod::lemma_fundamental_div_mod(share, n);
    vstd::arithmetic::div_mod::lemma_mod_bound(share, n);
    assert((share / n) * n == n * (share / n)) by (nonlinear_arith);
    assert((share / n + 1) * n == n * (share / n) + n) by (nonlinear_arith);
}

/// A pool without bonded LP tokens is left as it is, its last index included.
pub proof fn lemma_empty_pool_not_rewarded(s: State, p: PoolInfo)
    requires
        p.total_bond_amount == 0,
    ensures
        rewarded(s, p) == p,
{
}

/// Gov shares a position accrues when settled at pool `p`.
pub open spec fn accrued(p: PoolInfo, r: RewardInfo) -> int {
    settled(p, r).spec_share - r.spec_share
}

/// Gov shares accrued by all of `rs` when settled at pool `p`.
pub open spec fn total_accrued(p: PoolInfo, rs: Seq<RewardInfo>) -> int
    decreases rs.len(),
{
    if rs.len() == 0 { 0 } else { total_accrued(p, rs.drop_last()) + accrued(p, rs.last()) }
}

/// LP tokens bonded by all of `rs`.
pub open spec fn total_bonded(rs: Seq<RewardInfo>) -> int
    decreases rs.len(),
{
    if rs.len() == 0 { 0 } else { total_bonded(rs.drop_last()) + rs.last().bond_amount }
}

/// Positions last settled at the same index never accrue together more than the
/// pool's index growth over their bonded LP tokens: what positions are credited
/// stays within what the pool received.
pub proof fn lemma_positions_not_over_credited(p: PoolInfo, rs: Seq<RewardInfo>, index: Decimal)
    requires
        p.spec_share_index.atomics >= index.atomics,
        forall|i: int| 0 <= i < rs.len() ==> (#[trigger] rs[i]).spec_share_index == index,
        forall|i: int| 0 <= i < rs.len() ==> settle_fits(p, #[trigger] rs[i]),
    ensures
        total_accrued(p, rs) * (crate::math::DECIMAL_FRACTIONAL as int)
            <= (p.spec_share_index.atomics - index.atomics) * total_bonded(rs),
    decreases rs.len(),
{
    if rs.len() > 0 {
        let rs0 = rs.drop_last();
        assert forall|i: int| 0 <= i < rs0.len() implies (#[trigger] rs0[i]).spec_share_index == index && settle_fits(p, rs0[i]) by {
            assert(rs0[i] == rs[i]);
        }
        lemma_positions_not_over_credited(p, rs0, index);
        let r = rs.last();
        assert(r == rs[rs.len() - 1]);
        let d = p.spec_share_index.atomics - index.atomics;
        let x = r.bond_amount * d;
        assert(x >= 0) by (nonlinear_arith)
            requires x == r.bond_amount * d, d >= 0;
        crate::math::lemma_floor_times_le(x, crate::math::DECIMAL_FRACTIONAL as int);
        assert(accrued(p, r) == x / (crate::math::DECIMAL_FRACTIONAL as int));
        let t0 = total_accrued(p, rs0);
        let b0 = total_bonded(rs0);
        assert((t0 + accrued(p, r)) * (crate::math::DECIMAL_FRACTIONAL as int) <= d * (b0 + r.bond_amount)) by (nonlinear_arith)
            requires
                t0 * (crate::math::DECIMAL_FRACTIONAL as int) <= d * b0,
                accrued(p, r) * (crate::math::DECIMAL_FRACTIONAL as int) <= x,
                x == r.bond_amount * d,
        ;
    }
}


/// SPEC the positions hold once settled: what a withdrawal of everything pays.
pub open spec fn available(s: State, items: Seq<PoolReward>, staked: SpecBalance) -> int
    decreases items.len(),
{
    if items.len() == 0 {
        0
    } else {
        available(s, items.drop_last(), staked)
            + spec_balance_of(settled(rewarded(s, items.last().pool), items.last().reward_info).spec_share as int, staked)
    }
}

proof fn lemma_fold_takes_at_most_available(s: State, items: Seq<PoolReward>, staked: SpecBalance, req: u128)
    requires
        withdraw_fold(s, items, staked, Some(req)) is Ok,
    ensures
        withdraw_fold(s, items, staked, Some(req))->Ok_0.2 <= available(s, items, staked),
        withdraw_fold(s, items, staked, Some(req))->Ok_0.3 is Some,
    decreases items.len(),
{
    if items.len() > 0 {
        lemma_fold_takes_at_most_available(s, items.drop_last(), staked, req);
    }
}

/// A request for more SPEC than the positions hold is refused.
pub proof fn lemma_request_above_available_refused(s: State, items: Seq<PoolReward>, staked: SpecBalance, req: u128)
    requires
        req > available(s, items, staked),
    ensures
        withdrawn_all(s, items, staked, Some(req)) is Err,
{
    if withdraw_fold(s, items, staked, Some(req)) is Ok {
        lemma_fold_takes_at_most_available(s, items, staked, req);
        lemma_fold_request_accounted(s, items, staked, req);
    }
}

proof fn lemma_fold_request_accounted(s: State, items: Seq<PoolReward>, staked: SpecBalance, req: u128)
    requires
        withdraw_fold(s, items, staked, Some(req)) is Ok,
    ensures
        ({
            let t = withdraw_fold(s, items, staked, Some(req))->Ok_0;
            t.3 matches Some(left) && t.2 + left == req
        }),
    decreases items.len(),
{
    if items.len() > 0 {
        lemma_fold_request_accounted(s, items.drop_last(), staked, req);
    }
}

/// A withdrawal of a requested amount of SPEC pays out exactly that amount, or is
/// refused.
pub proof fn lemma_withdraw_pays_request(s: State, items: Seq<PoolReward>, staked: SpecBalance, req: u128)
    requires
        withdrawn_all(s, items, staked, Some(req)) is Ok,
    ensures
        withdrawn_all(s, items, staked, Some(req))->Ok_0.2 == req,
{
    lemma_fold_request_accounted(s, items, staked, req);
}


/// Crediting the same gov share count twice credits nothing the second time.
pub proof fn lemma_deposit_idempotent(s: State, staked_share: u128, query: bool)
    requires
        deposit_fits(s, staked_share),
        deposited(s, staked_share, query) is Ok,
    ensures
        deposited(deposited(s, staked_share, query)->Ok_0, staked_share, query) == deposited(s, staked_share, query),
{
    if s.total_weight != 0 {
        crate::math::lemma_ratio_zero(0, crate::math::DECIMAL_FRACTIONAL as int, s.total_weight as int);
    }
}


/// The gov balance the farm goes by: none at all while no pool has weight.
pub open spec fn effective_staked(s: State, staked: SpecBalance) -> SpecBalance {
    if s.total_weight == 0 { SpecBalance { share: 0, balance: 0 } } else { staked }
}

pub open spec fn withdraw_all_fits(s: State, items: Seq<PoolReward>, staked: SpecBalance, request: Option<u128>) -> bool {
    let st = effective_staked(s, staked);
    &&& deposit_fits(s, st.share)
    &&& deposited(s, st.share, false) matches Ok(s1) ==> withdraw_fits(s1, items, st, request)
}

/// Withdraws SPEC rewards from a staker's positions: the farm first credits the
/// gov shares it holds (`staked`, its gov balance), then takes the rewards out of
/// the positions in order, and the gov shares taken out leave its share count.
/// Returns the positions after the withdrawal, the gov shares and the SPEC taken out.
pub fn withdraw(state: &mut State, items: &Vec<PoolReward>, staked: &SpecBalance, request: Option<u128>) -> (r: Result<(Vec<PoolReward>, u128, u128), ContractError>)
    requires
        withdraw_all_fits(*old(state), items@, *staked, request),
    ensures
        ({
            let s = *old(state);
            let st = effective_staked(s, *staked);
            match deposited(s, st.share, false) {
                Err(e) => r == Err::<(Vec<PoolReward>, u128, u128), ContractError>(e) && *final(state) == s,
                Ok(s1) => match withdrawn_all(s1, items@, st, request) {
                    Err(e) => r == Err::<(Vec<PoolReward>, u128, u128), ContractError>(e) && *final(state) == s,
                    Ok((done, share, amount)) => if s1.previous_spec_share < share {
                        r == Err::<(Vec<PoolReward>, u128, u128), ContractError>(ContractError::Overflow) && *final(state) == s
                    } else {
                        &&& r matches Ok((v, sh, am)) && v@ == done && sh == share && am == amount
                        &&& *final(state) == State { previous_spec_share: (s1.previous_spec_share - share) as u128, ..s1 }
                    },
                },
            }
        }),
{
    let st = if state.total_weight == 0 { SpecBalance { share: 0, balance: 0 } } else { *staked };
    let state0 = *state;
    deposit_reward(state, st.share, false)?;
    let (done, share, amount) = match withdraw_reward(state, items, &st, request) {
        Ok(x) => x,
        Err(e) => {
            *state = state0;
            return Err(e);
        },
    };
    if let Err(e) = deduct_withdrawn(state, share) {
        *state = state0;
        return Err(e);
    }
    Ok((done, share, amount))
}

pub open spec fn query_fits(s: State, items: Seq<PoolReward>, staked: SpecBalance) -> bool {
    let st = effective_staked(s, staked);
    &&& deposit_fits(s, st.share)
    &&& forall|i: int| 0 <= i < items.len() ==> report_fits(deposited(s, st.share, true)->Ok_0, #[trigger] items[i], st)
}

/// Reports a staker's positions with their pending rewards brought up to date,
/// crediting the farm's gov shares (`staked`) first without storing anything.
pub fn query_reward_info(state: &State, items: &Vec<PoolReward>, staked: &SpecBalance) -> (r: Vec<RewardReport>)
    requires
        query_fits(*state, items@, *staked),
    ensures
        r.len() == items.len(),
        forall|i: int| 0 <= i < items.len() ==> #[trigger] r@[i] == reported(
            deposited(*state, effective_staked(*state, *staked).share, true)->Ok_0,
            items@[i],
            effective_staked(*state, *staked),
        ),
{
    let st = if state.total_weight == 0 { SpecBalance { share: 0, balance: 0 } } else { *staked };
    let mut s1 = *state;
    let _ = deposit_reward(&mut s1, st.share, true);
    let mut reports: Vec<RewardReport> = Vec::new();
    let mut i: usize = 0;
    while i < items.len()
        invariant
            i <= items.len(),
            s1 == deposited(*state, st.share, true)->Ok_0,
            st == effective_staked(*state, *staked),
            forall|k: int| 0 <= k < items.len() ==> report_fits(s1, #[trigger] items@[k], st),
            reports.len() == i,
            forall|k: int| 0 <= k < i ==> #[trigger] reports@[k] == reported(s1, items@[k], st),
        decreases items.len() - i,
    {
        reports.push(reward_report(&s1, items[i], &st));
        i = i + 1;
    }
    reports
}

} // verus!

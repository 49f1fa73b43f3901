//! Withdrawing SPEC rewards from a farm: each of a staker's positions is settled,
//! and its SPEC shares are taken out whole, or up to a requested amount of SPEC.
//! All the farms share these rules (the Orion farm's `withdraw_reward`).

use vstd::prelude::*;
use crate::error::ContractError;
use crate::farm::bond::{before_share_change, calc_spec_balance, calc_spec_share, settle_fits, settled, spec_balance_of, spec_reward_fits, spec_reward_to_pool, spec_rewarded, spec_share_of, SpecBalance};
use crate::farm::state::{PoolInfo, RewardInfo, State};

verus! {

/// A staker's position together with the pool it is in.
#[derive(Clone, Copy, Debug, PartialEq, Eq, Structural)]
pub struct PoolReward {
    pub pool: PoolInfo,
    pub reward_info: RewardInfo,
}

/// What withdrawing from one position takes out.
#[derive(Clone, Copy, Debug, PartialEq, Eq, Structural)]
pub struct Withdrawn {
    pub item: PoolReward,
    /// Gov shares taken out.
    pub spec_share: u128,
    /// SPEC they are worth.
    pub spec_amount: u128,
    /// SPEC still to take from the positions after this one, when an amount was requested.
    pub request_left: Option<u128>,
}

/// Gov shares to take out for `amount` SPEC: rounded up so that they are worth at
/// least the amount.
pub open spec fn shares_to_take(amount: int, staked: SpecBalance) -> int {
    let share = spec_share_of(amount, staked);
    if spec_balance_of(share, staked) < amount { share + 1 } else { share }
}

/// Withdrawing from one position: the pool catches up with the SPEC index, the
/// position is settled, and its SPEC shares go out, all of them, or as many as
/// the request (capped at what the position holds) needs.
pub open spec fn withdraw_item(s: State, it: PoolReward, staked: SpecBalance, request: Option<u128>, lp_balance: u128) -> Result<Withdrawn, ContractError> {
    let p1 = spec_rewarded(s, it.pool, lp_balance);
    let r1 = settled(p1, it.reward_info);
    match request {
        None => Ok(Withdrawn {
            item: PoolReward { pool: p1, reward_info: RewardInfo { spec_share: 0, ..r1 } },
            spec_share: r1.spec_share,
            spec_amount: spec_balance_of(r1.spec_share as int, staked) as u128,
            request_left: None,
        }),
        Some(req) => {
            let avail = spec_balance_of(r1.spec_share as int, staked);
            let amount = if req > avail { avail } else { req as int };
            let share = shares_to_take(amount, staked);
            if share > r1.spec_share {
                Err(ContractError::Overflow)
            } else {
                Ok(Withdrawn {
                    item: PoolReward { pool: p1, reward_info: RewardInfo { spec_share: (r1.spec_share - share) as u128, ..r1 } },
                    spec_share: share as u128,
                    spec_amount: amount as u128,
                    request_left: Some((req - amount) as u128),
                })
            }
        },
    }
}

/// Withdrawing from one position neither overflows nor divides by zero.
pub open spec fn withdraw_item_fits(s: State, it: PoolReward, staked: SpecBalance, request: Option<u128>, lp_balance: u128) -> bool {
    let p1 = spec_rewarded(s, it.pool, lp_balance);
    let r1 = settled(p1, it.reward_info);
    let avail = spec_balance_of(r1.spec_share as int, staked);
    &&& spec_reward_fits(s, it.pool, lp_balance)
    &&& settle_fits(p1, it.reward_info)
    &&& avail <= u128::MAX
    &&& request matches Some(req) ==> {
        let amount = if req > avail { avail } else { req as int };
        &&& spec_share_of(amount, staked) < u128::MAX
        &&& spec_balance_of(spec_share_of(amount, staked), staked) <= u128::MAX
    }
}

/// Withdraws from one position.
pub fn withdraw_one(state: &State, it: PoolReward, staked: &SpecBalance, request: Option<u128>, lp_balance: u128) -> (r: Result<Withdrawn, ContractError>)
    requires
        withdraw_item_fits(*state, it, *staked, request, lp_balance),
    ensures
        r == withdraw_item(*state, it, *staked, request, lp_balance),
{
    let mut pool = it.pool;
    let mut reward_info = it.reward_info;
    spec_reward_to_pool(state, &mut pool, lp_balance)?;
    before_share_change(&pool, &mut reward_info)?;
    match request {
        None => {
            let share = reward_info.spec_share;
            let amount = calc_spec_balance(share, staked);
            reward_info.spec_share = 0;
            Ok(Withdrawn { item: PoolReward { pool, reward_info }, spec_share: share, spec_amount: amount, request_left: None })
        },
        Some(req) => {
            let avail = calc_spec_balance(reward_info.spec_share, staked);
            let amount = if req > avail { avail } else { req };
            let mut share = calc_spec_share(amount, staked);
            if calc_spec_balance(share, staked) < amount {
                share = share + 1;
            }
            if share > reward_info.spec_share {
                return Err(ContractError::Overflow);
            }
            reward_info.spec_share = reward_info.spec_share - share;
            Ok(Withdrawn {
                item: PoolReward { pool, reward_info },
                spec_share: share,
                spec_amount: amount,
                request_left: Some(req - amount),
            })
        },
    }
}

/// The positions after withdrawing from `items` in order, the gov shares and SPEC
/// taken out, and what is left of the request.
pub open spec fn withdraw_fold(s: State, items: Seq<PoolReward>, staked: SpecBalance, request: Option<u128>, lp_balance: u128) -> Result<(Seq<PoolReward>, int, int, Option<u128>), ContractError>
    decreases items.len(),
{
    if items.len() == 0 {
        Ok((Seq::empty(), 0, 0, request))
    } else {
        match withdraw_fold(s, items.drop_last(), staked, request, lp_balance) {
            Err(e) => Err(e),
            Ok((done, share, amount, req)) => match withdraw_item(s, items.last(), staked, req, lp_balance) {
                Err(e) => Err(e),
                Ok(w) => Ok((done.push(w.item), share + w.spec_share, amount + w.spec_amount, w.request_left)),
            },
        }
    }
}

/// Withdrawing from `items` in order neither overflows nor divides by zero.
pub open spec fn withdraw_fits(s: State, items: Seq<PoolReward>, staked: SpecBalance, request: Option<u128>, lp_balance: u128) -> bool
    decreases items.len(),
{
    items.len() == 0 || {
        &&& withdraw_fits(s, items.drop_last(), staked, request, lp_balance)
        &&& withdraw_fold(s, items.drop_last(), staked, request, lp_balance) matches Ok((_, share, amount, req)) ==> {
            &&& withdraw_item_fits(s, items.last(), staked, req, lp_balance)
            &&& withdraw_item(s, items.last(), staked, req, lp_balance) matches Ok(w) ==>
                share + w.spec_share <= u128::MAX && amount + w.spec_amount <= u128::MAX
        }
    }
}

/// What a whole withdrawal returns: the positions, the gov shares and SPEC taken
/// out; a request for more SPEC than the positions hold is refused.
pub open spec fn withdrawn_all(s: State, items: Seq<PoolReward>, staked: SpecBalance, request: Option<u128>, lp_balance: u128) -> Result<(Seq<PoolReward>, int, int), ContractError> {
    match withdraw_fold(s, items, staked, request, lp_balance) {
        Err(e) => Err(e),
        Ok((done, share, amount, req)) => if req matches Some(left) && left != 0 {
            Err(ContractError::WithdrawExceedsReward)
        } else {
            Ok((done, share, amount))
        },
    }
}

proof fn lemma_fold_error_propagates(s: State, items: Seq<PoolReward>, staked: SpecBalance, request: Option<u128>, lp_balance: u128, k: int, n: int)
    requires
        0 <= k <= n <= items.len(),
        withdraw_fold(s, items.take(k), staked, request, lp_balance) is Err,
    ensures
        withdraw_fold(s, items.take(n), staked, request, lp_balance) == withdraw_fold(s, items.take(k), staked, request, lp_balance),
    decreases n - k,
{
    if n > k {
        lemma_fold_error_propagates(s, items, staked, request, lp_balance, k, n - 1);
        assert(items.take(n).drop_last() =~= items.take(n - 1));
    }
}

proof fn lemma_fits_prefix(s: State, items: Seq<PoolReward>, staked: SpecBalance, request: Option<u128>, lp_balance: u128, k: int)
    requires
        0 <= k <= items.len(),
        withdraw_fits(s, items, staked, request, lp_balance),
    ensures
        withdraw_fits(s, items.take(k), staked, request, lp_balance),
    decreases items.len() - k,
{
    if k < items.len() {
        assert(items.take(items.len() as int) =~= items);
        lemma_fits_prefix(s, items.drop_last(), staked, request, lp_balance, k);
        assert(items.drop_last().take(k) =~= items.take(k));
    } else {
        assert(items.take(k) =~= items);
    }
}

/// Withdraws SPEC rewards from a staker's positions, in order: all of them, or
/// `request` SPEC taken from the positions in turn. Returns the positions after
/// the withdrawal, and the gov shares and SPEC taken out.
pub fn withdraw_reward(state: &State, items: &Vec<PoolReward>, staked: &SpecBalance, request: Option<u128>, lp_balance: u128) -> (r: Result<(Vec<PoolReward>, u128, u128), ContractError>)
    requires
        withdraw_fits(*state, items@, *staked, request, lp_balance),
    ensures
        match withdrawn_all(*state, items@, *staked, request, lp_balance) {
            Err(e) => r == Err::<(Vec<PoolReward>, u128, u128), ContractError>(e),
            Ok((done, share, amount)) => r matches Ok((v, sh, am)) && v@ == done && sh == share && am == amount,
        },
{
    let mut done: Vec<PoolReward> = Vec::new();
    let mut share: u128 = 0;
    let mut amount: u128 = 0;
    let mut req = request;
    let mut i: usize = 0;
    proof {
        assert(items@.take(0) =~= Seq::<PoolReward>::empty());
    }
    while i < items.len()
        invariant
            i <= items.len(),
            withdraw_fits(*state, items@, *staked, request, lp_balance),
            withdraw_fold(*state, items@.take(i as int), *staked, request, lp_balance)
                == Ok::<(Seq<PoolReward>, int, int, Option<u128>), ContractError>((done@, share as int, amount as int, req)),
        decreases items.len() - i,
    {
        proof {
            lemma_fits_prefix(*state, items@, *staked, request, lp_balance, i + 1);
            assert(items@.take(i + 1).drop_last() =~= items@.take(i as int));
            assert(items@.take(i + 1).last() == items@[i as int]);
        }
        let w = match withdraw_one(state, items[i], staked, req, lp_balance) {
            Ok(w) => w,
            Err(e) => {
                proof {
                    lemma_fold_error_propagates(*state, items@, *staked, request, lp_balance, i + 1, items.len() as int);
                    assert(items@.take(items.len() as int) =~= items@);
                }
                return Err(e);
            },
        };
        share = share + w.spec_share;
        amount = amount + w.spec_amount;
        req = w.request_left;
        done.push(w.item);
        i = i + 1;
    }
    proof {
        assert(items@.take(items.len() as int) =~= items@);
    }
    if let Some(left) = req {
        if left != 0 {
            return Err(ContractError::WithdrawExceedsReward);
        }
    }
    Ok((done, share, amount))
}


/// The gov shares taken out for an amount of SPEC are worth at least that amount.
pub proof fn lemma_shares_to_take_cover(amount: int, staked: SpecBalance)
    requires
        amount >= 0,
        staked.share > 0,
        staked.balance > 0,
    ensures
        spec_balance_of(shares_to_take(amount, staked), staked) >= amount,
{
    crate::math::lemma_share_rounded_up_covers(amount, staked.share as int, staked.balance as int);
}


/// A position as a reward query reports it.
#[derive(Clone, Copy, Debug, PartialEq, Eq, Structural)]
pub struct RewardReport {
    /// The position's indices before settling.
    pub farm_share_index: crate::math::Decimal,
    pub auto_spec_share_index: crate::math::Decimal,
    pub stake_spec_share_index: crate::math::Decimal,
    /// LP tokens its auto-compound shares are worth.
    pub auto_bond_amount: u128,
    pub farm_share: u128,
    pub auto_bond_share: u128,
    pub stake_bond_share: u128,
    pub spec_share: u128,
    /// SPEC its pending gov shares are worth.
    pub pending_spec_reward: u128,
}

pub open spec fn reported(s: State, it: PoolReward, staked: SpecBalance, lp_balance: u128) -> RewardReport {
    let p1 = spec_rewarded(s, it.pool, lp_balance);
    let r1 = settled(p1, it.reward_info);
    RewardReport {
        farm_share_index: it.reward_info.farm_share_index,
        auto_spec_share_index: it.reward_info.auto_spec_share_index,
        stake_spec_share_index: it.reward_info.stake_spec_share_index,
        auto_bond_amount: crate::farm::state::amount_for(p1.total_auto_bond_share as int, lp_balance - p1.total_stake_bond_amount, r1.auto_bond_share as int) as u128,
        farm_share: r1.farm_share,
        auto_bond_share: r1.auto_bond_share,
        stake_bond_share: r1.stake_bond_share,
        spec_share: r1.spec_share,
        pending_spec_reward: spec_balance_of(r1.spec_share as int, staked) as u128,
    }
}

pub open spec fn report_fits(s: State, it: PoolReward, staked: SpecBalance, lp_balance: u128) -> bool {
    let p1 = spec_rewarded(s, it.pool, lp_balance);
    let r1 = settled(p1, it.reward_info);
    &&& spec_reward_fits(s, it.pool, lp_balance)
    &&& settle_fits(p1, it.reward_info)
    &&& p1.total_auto_bond_share != 0 ==> lp_balance >= p1.total_stake_bond_amount
    &&& crate::farm::state::amount_for(p1.total_auto_bond_share as int, lp_balance - p1.total_stake_bond_amount, r1.auto_bond_share as int) <= u128::MAX
    &&& spec_balance_of(r1.spec_share as int, staked) <= u128::MAX
}

/// Reports a position with its pending rewards brought up to date, without
/// changing it.
pub fn reward_report(state: &State, it: PoolReward, staked: &SpecBalance, lp_balance: u128) -> (r: RewardReport)
    requires
        report_fits(*state, it, *staked, lp_balance),
    ensures
        r == reported(*state, it, *staked, lp_balance),
{
    let mut pool = it.pool;
    let mut reward_info = it.reward_info;
    let _ = spec_reward_to_pool(state, &mut pool, lp_balance);
    let _ = before_share_change(&pool, &mut reward_info);
    let auto_bond_amount = pool.calc_user_auto_balance(lp_balance, reward_info.auto_bond_share);
    RewardReport {
        farm_share_index: it.reward_info.farm_share_index,
        auto_spec_share_index: it.reward_info.auto_spec_share_index,
        stake_spec_share_index: it.reward_info.stake_spec_share_index,
        auto_bond_amount,
        farm_share: reward_info.farm_share,
        auto_bond_share: reward_info.auto_bond_share,
        stake_bond_share: reward_info.stake_bond_share,
        spec_share: reward_info.spec_share,
        pending_spec_reward: calc_spec_balance(reward_info.spec_share, staked),
    }
}


/// The farm's state after a withdrawal of `share` gov shares.
pub fn deduct_withdrawn(state: &mut State, share: u128) -> (r: Result<(), ContractError>)
    ensures
        old(state).previous_spec_share >= share ==> r is Ok
            && *final(state) == (State { previous_spec_share: (old(state).previous_spec_share - share) as u128, ..*old(state) }),
        old(state).previous_spec_share < share ==> r == Err::<(), ContractError>(ContractError::Overflow) && *final(state) == *old(state),
{
    if state.previous_spec_share < share {
        return Err(ContractError::Overflow);
    }
    state.previous_spec_share = state.previous_spec_share - share;
    Ok(())
}


proof fn lemma_fold_request_accounted(s: State, items: Seq<PoolReward>, staked: SpecBalance, req: u128, lp_balance: u128)
    requires
        withdraw_fold(s, items, staked, Some(req), lp_balance) is Ok,
    ensures
        ({
            let t = withdraw_fold(s, items, staked, Some(req), lp_balance)->Ok_0;
            t.3 matches Some(left) && t.2 + left == req
        }),
    decreases items.len(),
{
    if items.len() > 0 {
        lemma_fold_request_accounted(s, items.drop_last(), staked, req, lp_balance);
    }
}

/// A withdrawal of a requested amount of SPEC pays out exactly that amount, or is
/// refused.
pub proof fn lemma_withdraw_pays_request(s: State, items: Seq<PoolReward>, staked: SpecBalance, req: u128, lp_balance: u128)
    requires
        withdrawn_all(s, items, staked, Some(req), lp_balance) is Ok,
    ensures
        withdrawn_all(s, items, staked, Some(req), lp_balance)->Ok_0.2 == req,
{
    lemma_fold_request_accounted(s, items, staked, req, lp_balance);
}


/// SPEC the positions hold once settled: what a withdrawal of everything pays.
pub open spec fn available(s: State, items: Seq<PoolReward>, staked: SpecBalance, lp_balance: u128) -> int
    decreases items.len(),
{
    if items.len() == 0 {
        0
    } else {
        available(s, items.drop_last(), staked, lp_balance)
            + spec_balance_of(settled(spec_rewarded(s, items.last().pool, lp_balance), items.last().reward_info).spec_share as int, staked)
    }
}

proof fn lemma_fold_takes_at_most_available(s: State, items: Seq<PoolReward>, staked: SpecBalance, req: u128, lp_balance: u128)
    requires
        withdraw_fold(s, items, staked, Some(req), lp_balance) is Ok,
    ensures
        withdraw_fold(s, items, staked, Some(req), lp_balance)->Ok_0.2 <= available(s, items, staked, lp_balance),
        withdraw_fold(s, items, staked, Some(req), lp_balance)->Ok_0.3 is Some,
    decreases items.len(),
{
    if items.len() > 0 {
        lemma_fold_takes_at_most_available(s, items.drop_last(), staked, req, lp_balance);
    }
}

/// A request for more SPEC than the positions hold is refused.
pub proof fn lemma_request_above_available_refused(s: State, items: Seq<PoolReward>, staked: SpecBalance, req: u128, lp_balance: u128)
    requires
        req > available(s, items, staked, lp_balance),
    ensures
        withdrawn_all(s, items, staked, Some(req), lp_balance) is Err,
{
    if withdraw_fold(s, items, staked, Some(req), lp_balance) is Ok {
        lemma_fold_takes_at_most_available(s, items, staked, req, lp_balance);
        lemma_fold_request_accounted(s, items, staked, req, lp_balance);
    }
}

/// The gov balance a farm goes by: none at all while no pool has weight.
pub open spec fn effective_staked(s: State, staked: SpecBalance) -> SpecBalance {
    if s.total_weight == 0 { SpecBalance { share: 0, balance: 0 } } else { staked }
}

pub open spec fn withdraw_all_fits(s: State, items: Seq<PoolReward>, staked: SpecBalance, request: Option<u128>, lp_balance: u128) -> bool {
    let st = effective_staked(s, staked);
    &&& crate::farm::bond::deposit_fits(s, st.share)
    &&& crate::farm::bond::deposited(s, st.share, false) matches Ok(s1) ==> withdraw_fits(s1, items, st, request, lp_balance)
}

/// Withdraws SPEC rewards from a staker's positions: the farm first credits the
/// gov shares it holds (`staked`, its gov balance), then takes the rewards out of
/// the positions in order, and the gov shares taken out leave its share count.
/// Returns the positions after the withdrawal, the gov shares and the SPEC taken out.
pub fn withdraw(state: &mut State, items: &Vec<PoolReward>, staked: &SpecBalance, request: Option<u128>, lp_balance: u128) -> (r: Result<(Vec<PoolReward>, u128, u128), ContractError>)
    requires
        withdraw_all_fits(*old(state), items@, *staked, request, lp_balance),
    ensures
        ({
            let s = *old(state);
            let st = effective_staked(s, *staked);
            match crate::farm::bond::deposited(s, st.share, false) {
                Err(e) => r == Err::<(Vec<PoolReward>, u128, u128), ContractError>(e) && *final(state) == s,
                Ok(s1) => match withdrawn_all(s1, items@, st, request, lp_balance) {
                    Err(e) => r == Err::<(Vec<PoolReward>, u128, u128), ContractError>(e) && *final(state) == s,
                    Ok((done, share, amount)) => if s1.previous_spec_share < share {
                        r == Err::<(Vec<PoolReward>, u128, u128), ContractError>(ContractError::Overflow) && *final(state) == s
                    } else {
                        &&& r matches Ok((v, sh, am)) && v@ == done && sh == share && am == amount
                        &&& *final(state) == State { previous_spec_share: (s1.previous_spec_share - share) as u128, ..s1 }
                    },
                },
            }
        }),
{
    let st = if state.total_weight == 0 { SpecBalance { share: 0, balance: 0 } } else { *staked };
    let state0 = *state;
    crate::farm::bond::deposit_spec_reward(state, st.share, false)?;
    let (done, share, amount) = match withdraw_reward(state, items, &st, request, lp_balance) {
        Ok(x) => x,
        Err(e) => {
            *state = state0;
            return Err(e);
        },
    };
    if let Err(e) = deduct_withdrawn(state, share) {
        *state = state0;
        return Err(e);
    }
    Ok((done, share, amount))
}

pub open spec fn query_fits(s: State, items: Seq<PoolReward>, staked: SpecBalance, lp_balance: u128) -> bool {
    let st = effective_staked(s, staked);
    &&& crate::farm::bond::deposit_fits(s, st.share)
    &&& forall|i: int| 0 <= i < items.len() ==>
        report_fits(crate::farm::bond::deposited(s, st.share, true)->Ok_0, #[trigger] items[i], st, lp_balance)
}

/// Reports a staker's positions with their pending rewards brought up to date,
/// crediting the farm's gov shares (`staked`) first without storing anything.
pub fn query_reward_info(state: &State, items: &Vec<PoolReward>, staked: &SpecBalance, lp_balance: u128) -> (r: Vec<RewardReport>)
    requires
        query_fits(*state, items@, *staked, lp_balance),
    ensures
        r.len() == items.len(),
        forall|i: int| 0 <= i < items.len() ==> #[trigger] r@[i] == reported(
            crate::farm::bond::deposited(*state, effective_staked(*state, *staked).share, true)->Ok_0,
            items@[i],
            effective_staked(*state, *staked),
            lp_balance,
        ),
{
    let st = if state.total_weight == 0 { SpecBalance { share: 0, balance: 0 } } else { *staked };
    let mut s1 = *state;
    let _ = crate::farm::bond::deposit_spec_reward(&mut s1, st.share, true);
    let mut reports: Vec<RewardReport> = Vec::new();
    let mut i: usize = 0;
    while i < items.len()
        invariant
            i <= items.len(),
            s1 == crate::farm::bond::deposited(*state, st.share, true)->Ok_0,
            st == effective_staked(*state, *staked),
            forall|k: int| 0 <= k < items.len() ==> report_fits(s1, #[trigger] items@[k], st, lp_balance),
            reports.len() == i,
            forall|k: int| 0 <= k < i ==> #[trigger] reports@[k] == reported(s1, items@[k], st, lp_balance),
        decreases items.len() - i,
    {
        reports.push(reward_report(&s1, items[i], &st, lp_balance));
        i = i + 1;
    }
    reports
}

} // verus!

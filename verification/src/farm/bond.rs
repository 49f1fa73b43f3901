//! Bonding, unbonding and reward bookkeeping of an auto-compounding farm.
//!
//! SPEC rewards reach a farm as gov shares; `spec_share_index` of the state counts
//! them per unit of pool weight, each pool converts its part into per-share indices
//! for its auto-compound and auto-stake shares, and each staker's position records
//! the indices it was last settled at.
//!
//! The rules are those all the farms share (the Orion farm's `bond.rs` and its
//! copies in the Anchor, Mirror, Pylon and Nexus farms); a farm without a deposit
//! fee passes a fee of zero.

use vstd::prelude::*;
use crate::common::addr_eq;
use crate::error::ContractError;
use crate::farm::state::{amount_for, shares_for, PoolInfo, RewardInfo, State};
use crate::math::{dec_ratio, mul_dec, multiply_ratio, ratio, spec_mul_dec, Decimal, DECIMAL_FRACTIONAL};

verus! {

/// The farm's holding in the gov contract: its day-0 shares and their balance.
#[derive(Clone, Copy, Debug, PartialEq, Eq, Structural)]
pub struct SpecBalance {
    pub share: u128,
    pub balance: u128,
}

/// The state after new gov shares (`staked_share` in all now) are spread over the
/// pool weights; a query tolerates a drop in shares, an update refuses it.
pub open spec fn deposited(s: State, staked_share: u128, query: bool) -> Result<State, ContractError> {
    if s.total_weight == 0 {
        Ok(s)
    } else if staked_share < s.previous_spec_share && !query {
        Err(ContractError::Overflow)
    } else {
        let deposit = if staked_share >= s.previous_spec_share { staked_share - s.previous_spec_share } else { 0 };
        Ok(State {
            spec_share_index: Decimal { atomics: (s.spec_share_index.atomics + dec_ratio(deposit, s.total_weight as int)) as u128 },
            previous_spec_share: staked_share,
            ..s
        })
    }
}

pub open spec fn deposit_fits(s: State, staked_share: u128) -> bool {
    (s.total_weight != 0 && staked_share >= s.previous_spec_share) ==> {
        let deposit = staked_share - s.previous_spec_share;
        &&& dec_ratio(deposit, s.total_weight as int) <= u128::MAX
        &&& s.spec_share_index.atomics + dec_ratio(deposit, s.total_weight as int) <= u128::MAX
    }
}

/// Credits the gov shares the farm gained since the last deposit (`staked_share`
/// is what it holds now) to the SPEC index, per unit of pool weight.
pub fn deposit_spec_reward(state: &mut State, staked_share: u128, query: bool) -> (r: Result<(), ContractError>)
    requires
        deposit_fits(*old(state), staked_share),
    ensures
        match deposited(*old(state), staked_share, query) {
            Ok(s) => r is Ok && *final(state) == s,
            Err(e) => r == Err::<(), ContractError>(e) && *final(state) == *old(state),
        },
{
    if state.total_weight == 0 {
        return Ok(());
    }
    let deposit_share = if staked_share >= state.previous_spec_share {
        staked_share - state.previous_spec_share
    } else if query {
        0
    } else {
        return Err(ContractError::Overflow);
    };
    let share_per_weight = Decimal::from_ratio(deposit_share, state.total_weight as u128);
    state.spec_share_index = state.spec_share_index.add(share_per_weight);
    state.previous_spec_share = staked_share;
    Ok(())
}

/// New SPEC shares for a pool since it last caught up with the state's index.
pub open spec fn pool_reward_share(s: State, p: PoolInfo) -> int {
    (s.spec_share_index.atomics - p.state_spec_share_index.atomics) * p.weight
}

/// The part of a pool's new SPEC shares that goes to auto-stakers: their LP tokens'
/// part of the farm's LP balance.
pub open spec fn pool_stake_share(s: State, p: PoolInfo, lp_balance: u128) -> int {
    ratio(pool_reward_share(s, p), p.total_stake_bond_amount as int, lp_balance as int)
}

/// The pool after its new SPEC shares are turned into per-share indices.
pub open spec fn spec_rewarded(s: State, p: PoolInfo, lp_balance: u128) -> PoolInfo {
    if lp_balance == 0 {
        p
    } else {
        let share = pool_reward_share(s, p);
        let stake_share = pool_stake_share(s, p, lp_balance);
        let auto_share = share - stake_share;
        let p1 = if stake_share != 0 {
            PoolInfo {
                stake_spec_share_index: Decimal { atomics: (p.stake_spec_share_index.atomics + stake_share / (p.total_stake_bond_share as int)) as u128 },
                ..p
            }
        } else {
            p
        };
        let p2 = if auto_share != 0 {
            PoolInfo {
                auto_spec_share_index: Decimal { atomics: (p1.auto_spec_share_index.atomics + auto_share / (p.total_auto_bond_share as int)) as u128 },
                ..p1
            }
        } else {
            p1
        };
        PoolInfo { state_spec_share_index: s.spec_share_index, ..p2 }
    }
}

pub open spec fn spec_reward_fits(s: State, p: PoolInfo, lp_balance: u128) -> bool {
    lp_balance != 0 ==> {
        let share = pool_reward_share(s, p);
        let stake_share = pool_stake_share(s, p, lp_balance);
        &&& s.spec_share_index.atomics >= p.state_spec_share_index.atomics
        &&& share <= u128::MAX
        &&& stake_share <= share
        &&& stake_share != 0 ==> p.total_stake_bond_share > 0
            && p.stake_spec_share_index.atomics + stake_share / (p.total_stake_bond_share as int) <= u128::MAX
        &&& share - stake_share != 0 ==> p.total_auto_bond_share > 0
            && p.auto_spec_share_index.atomics + (share - stake_share) / (p.total_auto_bond_share as int) <= u128::MAX
    }
}

/// Brings a pool up to the state's SPEC index: its weight's part of the new shares
/// goes to auto-stakers in proportion to their LP tokens (`lp_balance` is the farm's
/// LP balance) and the rest to auto-compounders, each per share of its kind.
pub fn spec_reward_to_pool(state: &State, pool: &mut PoolInfo, lp_balance: u128) -> (r: Result<(), ContractError>)
    requires
        spec_reward_fits(*state, *old(pool), lp_balance),
    ensures
        r is Ok,
        *final(pool) == spec_rewarded(*state, *old(pool), lp_balance),
{
    if lp_balance == 0 {
        return Ok(());
    }
    let share = (state.spec_share_index.atomics - pool.state_spec_share_index.atomics) * (pool.weight as u128);
    let stake_share = multiply_ratio(share, pool.total_stake_bond_amount, lp_balance);
    if stake_share != 0 {
        let stake_share_per_bond = stake_share / pool.total_stake_bond_share;
        pool.stake_spec_share_index = pool.stake_spec_share_index.add(Decimal { atomics: stake_share_per_bond });
    }
    let auto_share = share - stake_share;
    if auto_share != 0 {
        let auto_share_per_bond = auto_share / pool.total_auto_bond_share;
        pool.auto_spec_share_index = pool.auto_spec_share_index.add(Decimal { atomics: auto_share_per_bond });
    }
    pool.state_spec_share_index = state.spec_share_index;
    Ok(())
}

/// Rewards accrued by a position since it was last settled, in shares.
pub open spec fn settled(p: PoolInfo, r: RewardInfo) -> RewardInfo {
    let farm_share = spec_mul_dec(r.stake_bond_share as int, Decimal { atomics: (p.farm_share_index.atomics - r.farm_share_index.atomics) as u128 });
    let stake_spec = spec_mul_dec(r.stake_bond_share as int, Decimal { atomics: (p.stake_spec_share_index.atomics - r.stake_spec_share_index.atomics) as u128 });
    let auto_spec = spec_mul_dec(r.auto_bond_share as int, Decimal { atomics: (p.auto_spec_share_index.atomics - r.auto_spec_share_index.atomics) as u128 });
    RewardInfo {
        farm_share: (r.farm_share + farm_share) as u128,
        farm_share_index: p.farm_share_index,
        spec_share: (r.spec_share + stake_spec + auto_spec) as u128,
        stake_spec_share_index: p.stake_spec_share_index,
        auto_spec_share_index: p.auto_spec_share_index,
        ..r
    }
}

pub open spec fn settle_fits(p: PoolInfo, r: RewardInfo) -> bool {
    let farm_share = spec_mul_dec(r.stake_bond_share as int, Decimal { atomics: (p.farm_share_index.atomics - r.farm_share_index.atomics) as u128 });
    let stake_spec = spec_mul_dec(r.stake_bond_share as int, Decimal { atomics: (p.stake_spec_share_index.atomics - r.stake_spec_share_index.atomics) as u128 });
    let auto_spec = spec_mul_dec(r.auto_bond_share as int, Decimal { atomics: (p.auto_spec_share_index.atomics - r.auto_spec_share_index.atomics) as u128 });
    &&& p.farm_share_index.atomics >= r.farm_share_index.atomics
    &&& p.stake_spec_share_index.atomics >= r.stake_spec_share_index.atomics
    &&& p.auto_spec_share_index.atomics >= r.auto_spec_share_index.atomics
    &&& r.farm_share + farm_share <= u128::MAX
    &&& stake_spec + auto_spec <= u128::MAX
    &&& r.spec_share + stake_spec + auto_spec <= u128::MAX
}

/// Settles a position before its shares change: the farm and SPEC rewards accrued
/// since its indices were last set move into its pending rewards, and its indices
/// catch up with the pool's.
pub fn before_share_change(pool: &PoolInfo, reward_info: &mut RewardInfo) -> (r: Result<(), ContractError>)
    requires
        settle_fits(*pool, *old(reward_info)),
    ensures
        r is Ok,
        *final(reward_info) == settled(*pool, *old(reward_info)),
{
    let farm_share = mul_dec(reward_info.stake_bond_share, pool.farm_share_index.sub(reward_info.farm_share_index));
    reward_info.farm_share = reward_info.farm_share + farm_share;
    reward_info.farm_share_index = pool.farm_share_index;

    let stake_spec_share = mul_dec(reward_info.stake_bond_share, pool.stake_spec_share_index.sub(reward_info.stake_spec_share_index));
    let auto_spec_share = mul_dec(reward_info.auto_bond_share, pool.auto_spec_share_index.sub(reward_info.auto_spec_share_index));
    let spec_share = stake_spec_share + auto_spec_share;
    reward_info.spec_share = reward_info.spec_share + spec_share;
    reward_info.stake_spec_share_index = pool.stake_spec_share_index;
    reward_info.auto_spec_share_index = pool.auto_spec_share_index;
    Ok(())
}

/// Settling twice in a row accrues nothing the second time.
pub proof fn lemma_settle_idempotent(p: PoolInfo, r: RewardInfo)
    requires
        settle_fits(p, r),
    ensures
        settled(p, settled(p, r)) == settled(p, r),
{
    let r1 = settled(p, r);
    crate::math::lemma_ratio_zero(r1.stake_bond_share as int, 0, DECIMAL_FRACTIONAL as int);
    crate::math::lemma_ratio_zero(r1.auto_bond_share as int, 0, DECIMAL_FRACTIONAL as int);
}

/// LP tokens that compound after the deposit fee.
pub open spec fn after_deposit_fee(amount: int, deposit_fee: Decimal) -> int {
    if deposit_fee.atomics == 0 { amount } else { amount - spec_mul_dec(amount, deposit_fee) }
}

pub open spec fn increase_fits(p: PoolInfo, r: RewardInfo, deposit_fee: Decimal, amount: u128, lp_balance: u128) -> bool {
    let net = after_deposit_fee(amount as int, deposit_fee);
    let share = shares_for(p.total_auto_bond_share as int, lp_balance - p.total_stake_bond_amount, net);
    &&& spec_mul_dec(amount as int, deposit_fee) <= u128::MAX
    &&& net >= 0 ==> {
        &&& lp_balance >= p.total_stake_bond_amount
        &&& share <= u128::MAX
        &&& p.total_auto_bond_share + share <= u128::MAX
        &&& r.auto_bond_share + share <= u128::MAX
    }
}

/// Adds `amount_to_auto` LP tokens, less the deposit fee, to the auto-compound
/// shares of the pool and of the position (`lp_balance` is the farm's LP balance).
pub fn increase_bond_amount(pool: &mut PoolInfo, reward_info: &mut RewardInfo, deposit_fee: Decimal, amount_to_auto: u128, lp_balance: u128) -> (r: Result<(), ContractError>)
    requires
        increase_fits(*old(pool), *old(reward_info), deposit_fee, amount_to_auto, lp_balance),
    ensures
        ({
            let net = after_deposit_fee(amount_to_auto as int, deposit_fee);
            let share = shares_for(old(pool).total_auto_bond_share as int, lp_balance - old(pool).total_stake_bond_amount, net);
            if net < 0 {
                r == Err::<(), ContractError>(ContractError::Overflow) && *final(pool) == *old(pool) && *final(reward_info) == *old(reward_info)
            } else {
                &&& r is Ok
                &&& *final(pool) == PoolInfo { total_auto_bond_share: (old(pool).total_auto_bond_share + share) as u128, ..*old(pool) }
                &&& *final(reward_info) == RewardInfo { auto_bond_share: (old(reward_info).auto_bond_share + share) as u128, ..*old(reward_info) }
            }
        }),
{
    let auto_bond_amount = if deposit_fee.is_zero() {
        amount_to_auto
    } else {
        let fee = mul_dec(amount_to_auto, deposit_fee);
        if fee > amount_to_auto {
            return Err(ContractError::Overflow);
        }
        amount_to_auto - fee
    };
    let auto_bond_share = pool.calc_auto_bond_share(auto_bond_amount, lp_balance);
    pool.total_auto_bond_share = pool.total_auto_bond_share + auto_bond_share;
    reward_info.auto_bond_share = reward_info.auto_bond_share + auto_bond_share;
    Ok(())
}

/// SPEC tokens that `share` gov shares of the farm are worth.
pub open spec fn spec_balance_of(share: int, staked: SpecBalance) -> int {
    if staked.share == 0 { 0 } else { ratio(share, staked.balance as int, staked.share as int) }
}

/// Gov shares of the farm worth `amount` SPEC.
pub open spec fn spec_share_of(amount: int, staked: SpecBalance) -> int {
    if staked.balance == 0 { amount } else { ratio(amount, staked.share as int, staked.balance as int) }
}

/// SPEC tokens that `share` gov shares of the farm are worth.
pub fn calc_spec_balance(share: u128, staked: &SpecBalance) -> (r: u128)
    requires
        spec_balance_of(share as int, *staked) <= u128::MAX,
    ensures
        r as int == spec_balance_of(share as int, *staked),
{
    if staked.share == 0 {
        0
    } else {
        multiply_ratio(share, staked.balance, staked.share)
    }
}

/// Gov shares of the farm worth `amount` SPEC.
pub fn calc_spec_share(amount: u128, staked: &SpecBalance) -> (r: u128)
    requires
        spec_share_of(amount as int, *staked) <= u128::MAX,
    ensures
        r as int == spec_share_of(amount as int, *staked),
{
    if staked.balance == 0 {
        amount
    } else {
        multiply_ratio(amount, staked.share, staked.balance)
    }
}

/// A fresh position, settled at the pool's indices.
pub open spec fn new_reward_info(p: PoolInfo) -> RewardInfo {
    RewardInfo {
        farm_share_index: p.farm_share_index,
        auto_spec_share_index: p.auto_spec_share_index,
        stake_spec_share_index: p.stake_spec_share_index,
        auto_bond_share: 0,
        stake_bond_share: 0,
        farm_share: 0,
        spec_share: 0,
        accum_spec_share: 0,
    }
}

/// The state and pool after catching up with the gov shares, before shares change.
pub open spec fn caught_up(s: State, p: PoolInfo, staked_share: u128, lp_balance: u128) -> Result<(State, PoolInfo), ContractError> {
    if p.total_auto_bond_share != 0 || p.total_stake_bond_share != 0 {
        match deposited(s, staked_share, false) {
            Err(e) => Err(e),
            Ok(s1) => Ok((s1, spec_rewarded(s1, p, lp_balance))),
        }
    } else {
        Ok((s, p))
    }
}

pub open spec fn caught_up_fits(s: State, p: PoolInfo, staked_share: u128, lp_balance: u128) -> bool {
    (p.total_auto_bond_share != 0 || p.total_stake_bond_share != 0) ==> {
        &&& deposit_fits(s, staked_share)
        &&& deposited(s, staked_share, false) matches Ok(s1) ==> spec_reward_fits(s1, p, lp_balance)
    }
}

/// Bonding neither overflows nor divides by zero.
pub open spec fn bond_fits(s: State, p: PoolInfo, reward_info: Option<RewardInfo>, amount: u128, deposit_fee: Decimal, staked_share: u128, lp_balance: u128) -> bool {
    &&& caught_up_fits(s, p, staked_share, lp_balance)
    &&& caught_up(s, p, staked_share, lp_balance) matches Ok((s1, p1)) ==> {
        let r0 = match reward_info { Some(r) => r, None => new_reward_info(p1) };
        &&& settle_fits(p1, r0)
        &&& increase_fits(p1, settled(p1, r0), deposit_fee, amount, lp_balance)
    }
}

/// Bonds `amount` LP tokens, sent by `sender`, for auto-compounding; the farm
/// accepts a compound rate of exactly one only, and LP tokens from the pool's
/// staking token contract only. `staked_share` is the farm's gov share count and
/// `lp_balance` its LP balance before the bond. Returns the updated position.
pub fn bond(
    state: &mut State,
    pool: &mut PoolInfo,
    reward_info: Option<RewardInfo>,
    staking_token: &Vec<u8>,
    sender: &Vec<u8>,
    compound_rate: Option<Decimal>,
    amount: u128,
    deposit_fee: Decimal,
    staked_share: u128,
    lp_balance: u128,
) -> (r: Result<RewardInfo, ContractError>)
    requires
        bond_fits(*old(state), *old(pool), reward_info, amount, deposit_fee, staked_share, lp_balance),
    ensures
        ({
            let s = *old(state);
            let p = *old(pool);
            if !(compound_rate matches Some(c) && c.atomics == DECIMAL_FRACTIONAL) {
                r == Err::<RewardInfo, ContractError>(ContractError::AutoStakeDisabled) && *final(state) == s && *final(pool) == p
            } else if staking_token@ != sender@ {
                r == Err::<RewardInfo, ContractError>(ContractError::Unauthorized) && *final(state) == s && *final(pool) == p
            } else {
                match caught_up(s, p, staked_share, lp_balance) {
                    Err(e) => r == Err::<RewardInfo, ContractError>(e) && *final(state) == s && *final(pool) == p,
                    Ok((s1, p1)) => {
                        let r1 = settled(p1, match reward_info { Some(x) => x, None => new_reward_info(p1) });
                        let net = after_deposit_fee(amount as int, deposit_fee);
                        let share = shares_for(p1.total_auto_bond_share as int, lp_balance - p1.total_stake_bond_amount, net);
                        if net < 0 {
                            r == Err::<RewardInfo, ContractError>(ContractError::Overflow) && *final(state) == s && *final(pool) == p
                        } else {
                            &&& *final(state) == s1
                            &&& *final(pool) == PoolInfo { total_auto_bond_share: (p1.total_auto_bond_share + share) as u128, ..p1 }
                            &&& r == Ok::<RewardInfo, ContractError>(RewardInfo { auto_bond_share: (r1.auto_bond_share + share) as u128, ..r1 })
                        }
                    },
                }
            }
        }),
{
    let auto_only = match compound_rate {
        Some(c) => c.atomics == crate::math::DECIMAL_FRACTIONAL,
        None => false,
    };
    if !auto_only {
        return Err(ContractError::AutoStakeDisabled);
    }
    if !addr_eq(staking_token, sender) {
        return Err(ContractError::Unauthorized);
    }
    let state0 = *state;
    let pool0 = *pool;
    if pool.total_auto_bond_share != 0 || pool.total_stake_bond_share != 0 {
        deposit_spec_reward(state, staked_share, false)?;
        spec_reward_to_pool(state, pool, lp_balance)?;
    }
    let mut reward = match reward_info {
        Some(x) => x,
        None => RewardInfo {
            farm_share_index: pool.farm_share_index,
            auto_spec_share_index: pool.auto_spec_share_index,
            stake_spec_share_index: pool.stake_spec_share_index,
            auto_bond_share: 0,
            stake_bond_share: 0,
            farm_share: 0,
            spec_share: 0,
            accum_spec_share: 0,
        },
    };
    before_share_change(pool, &mut reward)?;
    if let Err(e) = increase_bond_amount(pool, &mut reward, deposit_fee, amount, lp_balance) {
        *state = state0;
        *pool = pool0;
        return Err(e);
    }
    Ok(reward)
}

/// LP tokens for auto-compounding taken out by an unbond of `amount`.
pub open spec fn unbond_auto_amount(r: RewardInfo, amount: int, user_auto_balance: int) -> int {
    if r.stake_bond_share == 0 { amount } else { ratio(amount, user_auto_balance, user_auto_balance) }
}

/// Auto-compound shares burnt for taking out `amount` LP tokens: rounded up so that
/// they are worth at least the amount.
pub open spec fn unbond_burn_share(p: PoolInfo, amount: int, lp_balance: u128) -> int {
    let total = lp_balance - p.total_stake_bond_amount;
    let share = shares_for(p.total_auto_bond_share as int, total, amount);
    if amount_for(p.total_auto_bond_share as int, total, share) < amount { share + 1 } else { share }
}

/// Unbonding neither overflows nor divides by zero.
pub open spec fn unbond_fits(s: State, p: PoolInfo, r: RewardInfo, amount: u128, staked_share: u128, lp_balance: u128) -> bool {
    let uab = amount_for(p.total_auto_bond_share as int, lp_balance - p.total_stake_bond_amount, r.auto_bond_share as int);
    &&& p.total_auto_bond_share != 0 ==> lp_balance >= p.total_stake_bond_amount
    &&& uab <= u128::MAX
    &&& uab >= amount ==> {
        &&& deposit_fits(s, staked_share)
        &&& deposited(s, staked_share, false) matches Ok(s1) ==> {
            let p1 = spec_rewarded(s1, p, lp_balance);
            let r1 = settled(p1, r);
            let aba = unbond_auto_amount(r1, amount as int, uab);
            &&& spec_reward_fits(s1, p, lp_balance)
            &&& settle_fits(p1, r)
            &&& r1.stake_bond_share != 0 ==> uab > 0
            &&& lp_balance >= p1.total_stake_bond_amount
            &&& shares_for(p1.total_auto_bond_share as int, lp_balance - p1.total_stake_bond_amount, aba) < u128::MAX
            &&& amount_for(p1.total_auto_bond_share as int, lp_balance - p1.total_stake_bond_amount,
                shares_for(p1.total_auto_bond_share as int, lp_balance - p1.total_stake_bond_amount, aba)) <= u128::MAX
        }
    }
}

/// Unbonds `amount` LP tokens of a position's auto-compound balance (`lp_balance` is
/// the farm's LP balance, `staked_share` its gov share count). Returns whether the
/// position is now empty and can be removed.
pub fn unbond(state: &mut State, pool: &mut PoolInfo, reward_info: &mut RewardInfo, amount: u128, staked_share: u128, lp_balance: u128) -> (r: Result<bool, ContractError>)
    requires
        unbond_fits(*old(state), *old(pool), *old(reward_info), amount, staked_share, lp_balance),
    ensures
        ({
            let s = *old(state);
            let p = *old(pool);
            let ri = *old(reward_info);
            let uab = amount_for(p.total_auto_bond_share as int, lp_balance - p.total_stake_bond_amount, ri.auto_bond_share as int);
            if uab < amount {
                r == Err::<bool, ContractError>(ContractError::UnbondTooMuch) && *final(state) == s && *final(pool) == p && *final(reward_info) == ri
            } else {
                match deposited(s, staked_share, false) {
                    Err(e) => r == Err::<bool, ContractError>(e) && *final(state) == s && *final(pool) == p && *final(reward_info) == ri,
                    Ok(s1) => {
                        let p1 = spec_rewarded(s1, p, lp_balance);
                        let r1 = settled(p1, ri);
                        let burn = unbond_burn_share(p1, unbond_auto_amount(r1, amount as int, uab), lp_balance);
                        if burn > p1.total_auto_bond_share || burn > r1.auto_bond_share {
                            &&& r == Err::<bool, ContractError>(ContractError::Overflow)
                            &&& *final(state) == s
                            &&& *final(pool) == p
                            &&& *final(reward_info) == ri
                        } else {
                            let r2 = RewardInfo { auto_bond_share: (r1.auto_bond_share - burn) as u128, ..r1 };
                            &&& *final(state) == s1
                            &&& *final(pool) == PoolInfo { total_auto_bond_share: (p1.total_auto_bond_share - burn) as u128, ..p1 }
                            &&& *final(reward_info) == r2
                            &&& r == Ok::<bool, ContractError>(r2.spec_share == 0 && r2.farm_share == 0 && r2.auto_bond_share == 0 && r2.stake_bond_share == 0)
                        }
                    },
                }
            }
        }),
{
    let user_auto_balance = pool.calc_user_auto_balance(lp_balance, reward_info.auto_bond_share);
    let user_balance = user_auto_balance;
    if user_balance < amount {
        return Err(ContractError::UnbondTooMuch);
    }
    let state0 = *state;
    let pool0 = *pool;
    let reward0 = *reward_info;
    deposit_spec_reward(state, staked_share, false)?;
    spec_reward_to_pool(state, pool, lp_balance)?;
    before_share_change(pool, reward_info)?;

    let auto_bond_amount = if reward_info.stake_bond_share == 0 {
        amount
    } else {
        proof {
            crate::math::lemma_ratio_le_value(amount as int, user_auto_balance as int, user_balance as int);
        }
        multiply_ratio(amount, user_auto_balance, user_balance)
    };
    let mut auto_bond_share = pool.calc_auto_bond_share(auto_bond_amount, lp_balance);
    if pool.calc_user_auto_balance(lp_balance, auto_bond_share) < auto_bond_amount {
        auto_bond_share = auto_bond_share + 1;
    }
    if auto_bond_share > pool.total_auto_bond_share || auto_bond_share > reward_info.auto_bond_share {
        *state = state0;
        *pool = pool0;
        *reward_info = reward0;
        return Err(ContractError::Overflow);
    }
    pool.total_auto_bond_share = pool.total_auto_bond_share - auto_bond_share;
    reward_info.auto_bond_share = reward_info.auto_bond_share - auto_bond_share;
    Ok(reward_info.spec_share == 0 && reward_info.farm_share == 0 && reward_info.auto_bond_share == 0
        && reward_info.stake_bond_share == 0)
}


/// The auto-compound shares burnt by an unbond are worth at least the LP tokens
/// taken out.
pub proof fn lemma_unbond_burn_covers(p: PoolInfo, amount: int, lp_balance: u128)
    requires
        amount >= 0,
        p.total_auto_bond_share > 0,
        lp_balance > p.total_stake_bond_amount,
    ensures
        amount_for(p.total_auto_bond_share as int, lp_balance - p.total_stake_bond_amount, unbond_burn_share(p, amount, lp_balance)) >= amount,
{
    let total = lp_balance - p.total_stake_bond_amount;
    crate::math::lemma_share_rounded_up_covers(amount, p.total_auto_bond_share as int, total);
    let burn = unbond_burn_share(p, amount, lp_balance);
    assert(total * burn == burn * total) by (nonlinear_arith);
    let sh = shares_for(p.total_auto_bond_share as int, total, amount);
    assert(total * sh == sh * total) by (nonlinear_arith);
}


/// Right after a bond, its auto-compound shares are worth no more than the LP
/// tokens bonded, so bonding never dilutes the other stakers. (A pool that holds
/// LP tokens for auto-compounding but no shares is left out.)
pub proof fn lemma_bond_not_worth_more(p: PoolInfo, amount: int, lp_balance: u128)
    requires
        amount >= 0,
        lp_balance >= p.total_stake_bond_amount,
        p.total_auto_bond_share > 0 || lp_balance == p.total_stake_bond_amount,
    ensures
        ({
            let total = lp_balance - p.total_stake_bond_amount;
            let share = shares_for(p.total_auto_bond_share as int, total, amount);
            amount_for(p.total_auto_bond_share + share, total + amount, share) <= amount
        }),
{
    let s = p.total_auto_bond_share as int;
    let b = lp_balance - p.total_stake_bond_amount;
    let sh = shares_for(s, b, amount);
    if s == 0 || b == 0 {
        if s + amount > 0 {
            crate::math::lemma_ratio_le_value(amount, amount, s + amount);
            assert((b + amount) * sh == sh * (b + amount)) by (nonlinear_arith);
        }
    } else {
        crate::math::lemma_bought_shares_not_worth_more(amount, s, b);
        assert((b + amount) * sh == sh * (b + amount)) by (nonlinear_arith);
    }
}

/// Crediting new gov shares never lowers the SPEC index.
pub proof fn lemma_deposit_index_grows(s: State, staked_share: u128, query: bool)
    requires
        deposit_fits(s, staked_share),
        deposited(s, staked_share, query) is Ok,
    ensures
        deposited(s, staked_share, query)->Ok_0.spec_share_index.atomics >= s.spec_share_index.atomics,
{
    if s.total_weight != 0 {
        let deposit = if staked_share >= s.previous_spec_share { staked_share - s.previous_spec_share } else { 0 };
        crate::math::lemma_ratio_zero(0, crate::math::DECIMAL_FRACTIONAL as int, s.total_weight as int);
        assert(deposit * (crate::math::DECIMAL_FRACTIONAL as int) >= 0) by (nonlinear_arith)
            requires deposit >= 0;
        vstd::arithmetic::div_mod::lemma_div_pos_is_pos(deposit * (crate::math::DECIMAL_FRACTIONAL as int), s.total_weight as int);
    }
}


/// New gov shares are never spread beyond themselves: the growth of the SPEC index
/// times the total weight is at most the new shares, in atomics.
pub proof fn lemma_deposit_not_over_spread(s: State, staked_share: u128)
    requires
        deposit_fits(s, staked_share),
        s.total_weight != 0,
        staked_share >= s.previous_spec_share,
    ensures
        (deposited(s, staked_share, false)->Ok_0.spec_share_index.atomics - s.spec_share_index.atomics) * s.total_weight
            <= (staked_share - s.previous_spec_share) * (DECIMAL_FRACTIONAL as int),
{
    let x = (staked_share - s.previous_spec_share) * (DECIMAL_FRACTIONAL as int);
    assert((staked_share - s.previous_spec_share) * (1_000_000_000_000_000_000int) >= 0) by (nonlinear_arith)
        requires staked_share >= s.previous_spec_share;
    crate::math::lemma_floor_times_le(x, s.total_weight as int);
}

/// A pool never hands its shares of new SPEC out twice: the growth of its
/// auto-compound index times the auto-compound shares, plus the growth of its
/// auto-stake index times the auto-stake shares, is at most the pool's new SPEC,
/// in atomics.
pub proof fn lemma_pool_reward_not_over_spread(s: State, p: PoolInfo, lp_balance: u128)
    requires
        spec_reward_fits(s, p, lp_balance),
        lp_balance != 0,
    ensures
        ({
            let p1 = spec_rewarded(s, p, lp_balance);
            (p1.auto_spec_share_index.atomics - p.auto_spec_share_index.atomics) * p.total_auto_bond_share
                + (p1.stake_spec_share_index.atomics - p.stake_spec_share_index.atomics) * p.total_stake_bond_share
                <= pool_reward_share(s, p)
        }),
{
    let share = pool_reward_share(s, p);
    let stake_share = pool_stake_share(s, p, lp_balance);
    let auto_share = share - stake_share;
    assert(share >= 0) by (nonlinear_arith)
        requires
            share == (s.spec_share_index.atomics - p.state_spec_share_index.atomics) * p.weight,
            s.spec_share_index.atomics >= p.state_spec_share_index.atomics,
    ;
    assert(p.total_stake_bond_amount as int * share >= 0) by (nonlinear_arith)
        requires share >= 0;
    vstd::arithmetic::div_mod::lemma_div_pos_is_pos(share * p.total_stake_bond_amount, lp_balance as int);
    let p1 = spec_rewarded(s, p, lp_balance);
    let d_stake = p1.stake_spec_share_index.atomics - p.stake_spec_share_index.atomics;
    let d_auto = p1.auto_spec_share_index.atomics - p.auto_spec_share_index.atomics;
    if stake_share != 0 {
        crate::math::lemma_floor_times_le(stake_share, p.total_stake_bond_share as int);
        assert(d_stake == stake_share / (p.total_stake_bond_share as int));
    } else {
        assert(d_stake == 0);
    }
    if auto_share != 0 {
        crate::math::lemma_floor_times_le(auto_share, p.total_auto_bond_share as int);
        assert(d_auto == auto_share / (p.total_auto_bond_share as int));
    } else {
        assert(d_auto == 0);
    }
    assert(d_stake * p.total_stake_bond_share <= stake_share);
    assert(d_auto * p.total_auto_bond_share <= auto_share);
}


/// `x` split evenly among `n` holders, rounded down: each holds `q` where
/// `q * n <= x < (q + 1) * n`.
proof fn lemma_even_split(x: int, n: int)
    requires
        x >= 0,
        n > 0,
    ensures
        (x / n) * n <= x < (x / n + 1) * n,
        x / n >= 0,
{
    vstd::arithmetic::div_mod::lemma_fundamental_div_mod(x, n);
    vstd::arithmetic::div_mod::lemma_mod_bound(x, n);
    vstd::arithmetic::div_mod::lemma_div_pos_is_pos(x, n);
    assert((x / n) * n == n * (x / n)) by (nonlinear_arith);
    assert((x / n + 1) * n == n * (x / n) + n) by (nonlinear_arith);
}

/// A pool's new SPEC shares (the growth of the state's index times the pool's
/// weight) go to auto-stakers in proportion to the LP tokens bonded for auto-stake
/// over the farm's LP balance, rounded down, and the rest to auto-compounders;
/// each part is spread evenly over the shares of its kind, so each index grows by
/// the part per share, rounded down. Nothing goes to auto-stakers while no LP
/// token is bonded for auto-stake.
pub proof fn lemma_pool_reward_split_by_lp(s: State, p: PoolInfo, lp_balance: u128)
    requires
        spec_reward_fits(s, p, lp_balance),
        lp_balance != 0,
    ensures
        ({
            let share = (s.spec_share_index.atomics - p.state_spec_share_index.atomics) * p.weight;
            let stake = share * p.total_stake_bond_amount / (lp_balance as int);
            let p1 = spec_rewarded(s, p, lp_balance);
            let d_stake = p1.stake_spec_share_index.atomics - p.stake_spec_share_index.atomics;
            let d_auto = p1.auto_spec_share_index.atomics - p.auto_spec_share_index.atomics;
            &&& 0 <= stake <= share
            &&& p.total_stake_bond_amount == 0 ==> d_stake == 0
            &&& stake == 0 ==> d_stake == 0
            &&& stake != 0 ==> d_stake * p.total_stake_bond_share <= stake < (d_stake + 1) * p.total_stake_bond_share
            &&& share - stake == 0 ==> d_auto == 0
            &&& share - stake != 0 ==> d_auto * p.total_auto_bond_share <= share - stake < (d_auto + 1) * p.total_auto_bond_share
            &&& p1.state_spec_share_index == s.spec_share_index
        }),
{
    let share = (s.spec_share_index.atomics - p.state_spec_share_index.atomics) * p.weight;
    let stake = share * p.total_stake_bond_amount / (lp_balance as int);
    assert(share >= 0) by (nonlinear_arith)
        requires
            share == (s.spec_share_index.atomics - p.state_spec_share_index.atomics) * p.weight,
            s.spec_share_index.atomics >= p.state_spec_share_index.atomics,
    ;
    assert(share * p.total_stake_bond_amount >= 0) by (nonlinear_arith)
        requires share >= 0;
    vstd::arithmetic::div_mod::lemma_div_pos_is_pos(share * p.total_stake_bond_amount, lp_balance as int);
    assert(stake == pool_stake_share(s, p, lp_balance));
    if p.total_stake_bond_amount == 0 {
        assert(share * 0 == 0);
        assert(stake == 0);
    }
    if stake != 0 {
        lemma_even_split(stake, p.total_stake_bond_share as int);
    }
    if share - stake != 0 {
        lemma_even_split(share - stake, p.total_auto_bond_share as int);
    }
}

/// While the farm holds no LP tokens, a pool is left as it is, its last index included.
pub proof fn lemma_pool_without_lp_not_rewarded(s: State, p: PoolInfo)
    ensures
        spec_rewarded(s, p, 0) == p,
{
}

/// Crediting the same gov share count twice credits nothing the second time.
pub proof fn lemma_deposit_idempotent(s: State, staked_share: u128, query: bool)
    requires
        deposit_fits(s, staked_share),
        deposited(s, staked_share, query) is Ok,
    ensures
        deposited(deposited(s, staked_share, query)->Ok_0, staked_share, query) == deposited(s, staked_share, query),
{
    if s.total_weight != 0 {
        crate::math::lemma_ratio_zero(0, crate::math::DECIMAL_FRACTIONAL as int, s.total_weight as int);
    }
}

} // verus!

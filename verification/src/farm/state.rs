//! Configuration, state and share arithmetic of an auto-compounding farm.

use vstd::prelude::*;
use crate::common::addr_eq;
use crate::error::ContractError;
use crate::math::{multiply_ratio, ratio, Decimal};

verus! {

/// Configuration of a farm.
pub struct Config {
    pub owner: Vec<u8>,
    pub spectrum_token: Vec<u8>,
    pub spectrum_gov: Vec<u8>,
    /// The reward token of the farmed protocol (ANC, MIR, ORION, MINE, PSI, ...).
    pub farm_token: Vec<u8>,
    pub farm_staking: Vec<u8>,
    pub controller: Vec<u8>,
    pub platform: Vec<u8>,
    pub community_fee: Decimal,
    pub platform_fee: Decimal,
    pub controller_fee: Decimal,
    pub deposit_fee: Decimal,
    pub lock_start: u64,
    pub lock_end: u64,
}

/// Part of a reward still locked at `height`: all of it until the lock starts,
/// none once it ends, and in between the part of the lock period still ahead.
pub open spec fn locked_reward(lock_start: u64, lock_end: u64, total_amount: int, height: u64) -> int {
    if lock_end <= height {
        0
    } else if lock_start >= height {
        total_amount
    } else {
        ratio(total_amount, lock_end - height, lock_end - lock_start)
    }
}

impl Config {
    /// Only the controller may harvest and compound, when one is set.
    pub fn authorize_controller(&self, sender: &Vec<u8>) -> (r: Result<(), ContractError>)
        ensures
            r is Ok <==> (self.controller@.len() == 0 || self.controller@ == sender@),
            r is Err ==> r == Err::<(), ContractError>(ContractError::Unauthorized),
    {
        if self.controller.len() != 0 && !addr_eq(&self.controller, sender) {
            return Err(ContractError::Unauthorized);
        }
        Ok(())
    }

    /// The fee rates a harvest charges: the platform's and the controller's only
    /// while their addresses are set.
    pub fn effective_fees(&self) -> (r: (Decimal, Decimal, Decimal))
        ensures
            r.0 == self.community_fee,
            r.1 == (if self.platform@.len() == 0 { Decimal { atomics: 0 } } else { self.platform_fee }),
            r.2 == (if self.controller@.len() == 0 { Decimal { atomics: 0 } } else { self.controller_fee }),
    {
        let platform_fee = if self.platform.len() == 0 { Decimal::zero() } else { self.platform_fee };
        let controller_fee = if self.controller.len() == 0 { Decimal::zero() } else { self.controller_fee };
        (self.community_fee, platform_fee, controller_fee)
    }

    /// Part of `total_amount` still locked at `height`.
    pub fn calc_locked_reward(&self, total_amount: u128, height: u64) -> (r: u128)
        ensures
            r as int == locked_reward(self.lock_start, self.lock_end, total_amount as int, height),
            r <= total_amount,
    {
        locked_amount(self.lock_start, self.lock_end, total_amount, height)
    }
}

/// Part of `total_amount` still locked at `height` under a lock from `lock_start`
/// to `lock_end`.
pub fn locked_amount(lock_start: u64, lock_end: u64, total_amount: u128, height: u64) -> (r: u128)
    ensures
        r as int == locked_reward(lock_start, lock_end, total_amount as int, height),
        r <= total_amount,
{
    if lock_end <= height {
        0
    } else if lock_start >= height {
        total_amount
    } else {
        proof {
            crate::math::lemma_ratio_le_value(total_amount as int, (lock_end - height) as int, (lock_end - lock_start) as int);
        }
        multiply_ratio(total_amount, (lock_end - height) as u128, (lock_end - lock_start) as u128)
    }
}

/// Global state of a farm.
#[derive(Clone, Copy, Debug, PartialEq, Eq, Structural)]
pub struct State {
    /// Gov shares owned by the farm at the last reward deposit.
    pub previous_spec_share: u128,
    /// SPEC rewards in gov shares per unit of pool weight.
    pub spec_share_index: Decimal,
    /// Farm-token rewards held for auto-stakers, in shares.
    pub total_farm_share: u128,
    pub total_weight: u32,
    /// Commission earned, in the base denomination.
    pub earning: u128,
    /// Commission earned, in SPEC.
    pub earning_spec: u128,
}

/// Shares for `amount` units against the given totals: one per unit while empty,
/// else pro rata, rounded down.
pub open spec fn shares_for(total_share: int, total_amount: int, amount: int) -> int {
    if total_share == 0 || total_amount == 0 {
        amount
    } else {
        ratio(amount, total_share, total_amount)
    }
}

/// Amount that `share` shares are worth against the given totals, rounded down.
pub open spec fn amount_for(total_share: int, total_amount: int, share: int) -> int {
    if total_share == 0 {
        0
    } else {
        ratio(total_amount, share, total_share)
    }
}

impl State {
    /// Records commission earned: `net_commission` in the base denomination and
    /// `spec_commission` SPEC bought with it.
    pub fn add_earning(&mut self, net_commission: u128, spec_commission: u128)
        requires
            old(self).earning + net_commission <= u128::MAX,
            old(self).earning_spec + spec_commission <= u128::MAX,
        ensures
            *final(self) == (State {
                earning: (old(self).earning + net_commission) as u128,
                earning_spec: (old(self).earning_spec + spec_commission) as u128,
                ..*old(self)
            }),
    {
        self.earning = self.earning + net_commission;
        self.earning_spec = self.earning_spec + spec_commission;
    }

    /// Farm shares for `farm_amount` tokens when the farm holds `total_farm_amount`.
    pub fn calc_farm_share(&self, farm_amount: u128, total_farm_amount: u128) -> (r: u128)
        requires
            shares_for(self.total_farm_share as int, total_farm_amount as int, farm_amount as int) <= u128::MAX,
        ensures
            r as int == shares_for(self.total_farm_share as int, total_farm_amount as int, farm_amount as int),
    {
        if self.total_farm_share == 0 || total_farm_amount == 0 {
            farm_amount
        } else {
            multiply_ratio(farm_amount, self.total_farm_share, total_farm_amount)
        }
    }
}

/// One bonded LP token of a farm.
#[derive(Clone, Copy, Debug, PartialEq, Eq, Structural)]
pub struct PoolInfo {
    pub total_auto_bond_share: u128,
    pub total_stake_bond_share: u128,
    /// LP tokens bonded for auto-staking; the rest of the farm's LP balance compounds.
    pub total_stake_bond_amount: u128,
    pub weight: u32,
    pub auto_compound: bool,
    pub farm_share: u128,
    pub state_spec_share_index: Decimal,
    pub farm_share_index: Decimal,
    pub auto_spec_share_index: Decimal,
    pub stake_spec_share_index: Decimal,
    pub reinvest_allowance: u128,
}

impl PoolInfo {
    /// Auto-compound shares for `auto_bond_amount` LP tokens, when the farm holds
    /// `lp_balance` LP tokens in all.
    pub fn calc_auto_bond_share(&self, auto_bond_amount: u128, lp_balance: u128) -> (r: u128)
        requires
            lp_balance >= self.total_stake_bond_amount,
            shares_for(self.total_auto_bond_share as int, lp_balance - self.total_stake_bond_amount, auto_bond_amount as int) <= u128::MAX,
        ensures
            r as int == shares_for(self.total_auto_bond_share as int, lp_balance - self.total_stake_bond_amount, auto_bond_amount as int),
    {
        let total_auto_bond_amount = lp_balance - self.total_stake_bond_amount;
        if self.total_auto_bond_share == 0 || total_auto_bond_amount == 0 {
            auto_bond_amount
        } else {
            multiply_ratio(auto_bond_amount, self.total_auto_bond_share, total_auto_bond_amount)
        }
    }

    /// Auto-stake shares for `stake_bond_amount` LP tokens.
    pub fn calc_stake_bond_share(&self, stake_bond_amount: u128) -> (r: u128)
        requires
            shares_for(self.total_stake_bond_share as int, self.total_stake_bond_amount as int, stake_bond_amount as int) <= u128::MAX,
        ensures
            r as int == shares_for(self.total_stake_bond_share as int, self.total_stake_bond_amount as int, stake_bond_amount as int),
    {
        if self.total_stake_bond_share == 0 || self.total_stake_bond_amount == 0 {
            stake_bond_amount
        } else {
            multiply_ratio(stake_bond_amount, self.total_stake_bond_share, self.total_stake_bond_amount)
        }
    }

    /// LP tokens that `auto_bond_share` auto-compound shares are worth.
    pub fn calc_user_auto_balance(&self, lp_balance: u128, auto_bond_share: u128) -> (r: u128)
        requires
            self.total_auto_bond_share != 0 ==> lp_balance >= self.total_stake_bond_amount,
            amount_for(self.total_auto_bond_share as int, lp_balance - self.total_stake_bond_amount, auto_bond_share as int) <= u128::MAX,
        ensures
            r as int == amount_for(self.total_auto_bond_share as int, lp_balance - self.total_stake_bond_amount, auto_bond_share as int),
    {
        if self.total_auto_bond_share == 0 {
            0
        } else {
            multiply_ratio(lp_balance - self.total_stake_bond_amount, auto_bond_share, self.total_auto_bond_share)
        }
    }

    /// LP tokens that `stake_bond_share` auto-stake shares are worth.
    pub fn calc_user_stake_balance(&self, stake_bond_share: u128) -> (r: u128)
        requires
            amount_for(self.total_stake_bond_share as int, self.total_stake_bond_amount as int, stake_bond_share as int) <= u128::MAX,
        ensures
            r as int == amount_for(self.total_stake_bond_share as int, self.total_stake_bond_amount as int, stake_bond_share as int),
    {
        if self.total_stake_bond_share == 0 {
            0
        } else {
            multiply_ratio(self.total_stake_bond_amount, stake_bond_share, self.total_stake_bond_share)
        }
    }
}

/// A staker's position in one pool of a farm.
#[derive(Clone, Copy, Debug, PartialEq, Eq, Structural)]
pub struct RewardInfo {
    pub farm_share_index: Decimal,
    pub auto_spec_share_index: Decimal,
    pub stake_spec_share_index: Decimal,
    pub auto_bond_share: u128,
    pub stake_bond_share: u128,
    /// Farm-token rewards in farm shares.
    pub farm_share: u128,
    /// SPEC rewards in gov shares.
    pub spec_share: u128,
    pub accum_spec_share: u128,
}

} // verus!

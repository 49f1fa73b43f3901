//! Configuration, state, pools and positions of the SPEC farm.

use vstd::prelude::*;
use crate::farm::state::locked_reward;
use crate::math::Decimal;

verus! {

pub struct Config {
    pub owner: Vec<u8>,
    pub spectrum_token: Vec<u8>,
    pub spectrum_gov: Vec<u8>,
    pub lock_start: u64,
    pub lock_end: u64,
}

impl Config {
    /// Part of `total_amount` still locked at `height`.
    pub fn calc_locked_reward(&self, total_amount: u128, height: u64) -> (r: u128)
        ensures
            r as int == locked_reward(self.lock_start, self.lock_end, total_amount as int, height),
            r <= total_amount,
    {
        crate::farm::state::locked_amount(self.lock_start, self.lock_end, total_amount, height)
    }
}

#[derive(Clone, Copy, Debug, PartialEq, Eq, Structural)]
pub struct State {
    /// Gov shares owned by the farm at the last reward deposit.
    pub previous_spec_share: u128,
    /// SPEC rewards in gov shares per unit of pool weight.
    pub spec_share_index: Decimal,
    pub total_weight: u32,
}

/// One bonded LP token.
#[derive(Clone, Copy, Debug, PartialEq, Eq, Structural)]
pub struct PoolInfo {
    pub total_bond_amount: u128,
    pub weight: u32,
    /// The state's index the pool last caught up with.
    pub state_spec_share_index: Decimal,
    /// Gov shares per bonded LP token.
    pub spec_share_index: Decimal,
}

/// A staker's position in one pool.
#[derive(Clone, Copy, Debug, PartialEq, Eq, Structural)]
pub struct RewardInfo {
    pub spec_share_index: Decimal,
    pub bond_amount: u128,
    pub spec_share: u128,
    pub accum_spec_share: u128,
}

impl RewardInfo {
    /// A position with neither bond nor pending reward, which is removed.
    pub open spec fn spec_is_empty(&self) -> bool {
        self.spec_share == 0 && self.bond_amount == 0
    }

    pub fn is_empty(&self) -> (r: bool)
        ensures
            r == self.spec_is_empty(),
    {
        self.spec_share == 0 && self.bond_amount == 0
    }
}

} // verus!

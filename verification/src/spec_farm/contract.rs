//! Owner operations of the SPEC farm: registering pools and changing the owner.

use vstd::prelude::*;
use crate::common::{addr_eq, copy_addr};
use crate::error::ContractError;
use crate::math::Decimal;
use crate::spec_farm::bond::{deposit_fits, deposit_reward, deposited};
use crate::spec_farm::state::{Config, PoolInfo, State};

verus! {

/// The state of a new farm: no shares, no weight.
pub fn instantiate_state() -> (r: State)
    ensures
        r == (State { previous_spec_share: 0, spec_share_index: Decimal { atomics: 0 }, total_weight: 0 }),
{
    State { previous_spec_share: 0, spec_share_index: Decimal::zero(), total_weight: 0 }
}

/// A pool registered for the first time, caught up with the state's index.
pub open spec fn new_pool(s: State) -> PoolInfo {
    PoolInfo {
        total_bond_amount: 0,
        weight: 0,
        state_spec_share_index: s.spec_share_index,
        spec_share_index: Decimal { atomics: 0 },
    }
}

pub open spec fn register_fits(s: State, pool: Option<PoolInfo>, weight: u32, staked_share: u128) -> bool {
    &&& deposit_fits(s, staked_share)
    &&& deposited(s, staked_share, false) matches Ok(s1) ==> {
        let p = match pool { Some(p) => p, None => new_pool(s1) };
        &&& s1.total_weight + weight <= u32::MAX
        &&& s1.total_weight + weight >= p.weight
    }
}

/// Registers a pool, or changes its weight, on behalf of the owner: the farm first
/// credits the gov shares gained, then the total weight moves by the change.
pub fn register_asset(config: &Config, state: &mut State, pool: Option<PoolInfo>, sender: &Vec<u8>, weight: u32, staked_share: u128) -> (r: Result<PoolInfo, ContractError>)
    requires
        config.owner@ == sender@ ==> register_fits(*old(state), pool, weight, staked_share),
    ensures
        config.owner@ != sender@ ==> r == Err::<PoolInfo, ContractError>(ContractError::Unauthorized) && *final(state) == *old(state),
        config.owner@ == sender@ ==> match deposited(*old(state), staked_share, false) {
            Err(e) => r == Err::<PoolInfo, ContractError>(e),
            Ok(s1) => {
                let p = match pool { Some(p) => p, None => new_pool(s1) };
                &&& *final(state) == State { total_weight: (s1.total_weight + weight - p.weight) as u32, ..s1 }
                &&& r == Ok::<PoolInfo, ContractError>(PoolInfo { weight, ..p })
            },
        },
        r is Err ==> *final(state) == *old(state),
{
    if !addr_eq(&config.owner, sender) {
        return Err(ContractError::Unauthorized);
    }
    deposit_reward(state, staked_share, false)?;
    let mut p = match pool {
        Some(p) => p,
        None => PoolInfo {
            total_bond_amount: 0,
            weight: 0,
            state_spec_share_index: state.spec_share_index,
            spec_share_index: Decimal::zero(),
        },
    };
    state.total_weight = state.total_weight + weight - p.weight;
    p.weight = weight;
    Ok(p)
}

/// Changes the owner on behalf of the owner; once the gov contract owns the farm
/// the owner can no longer change.
pub fn update_config(config: &mut Config, sender: &Vec<u8>, owner: Option<Vec<u8>>) -> (r: Result<(), ContractError>)
    ensures
        old(config).owner@ != sender@ ==> r == Err::<(), ContractError>(ContractError::Unauthorized),
        old(config).owner@ == sender@ ==> match owner {
            None => r is Ok,
            Some(o) => if old(config).owner@ == old(config).spectrum_gov@ {
                r == Err::<(), ContractError>(ContractError::CannotUpdateOwner)
            } else {
                r is Ok && final(config).owner@ == o@
            },
        },
        r is Err ==> final(config).owner@ == old(config).owner@,
        final(config).spectrum_gov@ == old(config).spectrum_gov@,
        final(config).spectrum_token@ == old(config).spectrum_token@,
        final(config).lock_start == old(config).lock_start,
        final(config).lock_end == old(config).lock_end,
{
    if !addr_eq(&config.owner, sender) {
        return Err(ContractError::Unauthorized);
    }
    if let Some(o) = owner {
        if addr_eq(&config.owner, &config.spectrum_gov) {
            return Err(ContractError::CannotUpdateOwner);
        }
        config.owner = copy_addr(&o);
    }
    Ok(())
}

} // verus!

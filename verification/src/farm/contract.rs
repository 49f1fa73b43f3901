//! Owner operations of a farm: fee validation, configuration updates and the
//! registration of its one asset.

use vstd::prelude::*;
use crate::common::{addr_eq, validate_percentage};
use crate::error::{ContractError, RatioField};
use crate::farm::bond::{deposit_fits, deposit_spec_reward, deposited};
use crate::farm::state::{Config, PoolInfo, State};
use crate::math::{dec_ratio, Decimal, DECIMAL_FRACTIONAL};

verus! {

/// The outcome of checking the three fee rates, community fee first.
pub open spec fn validate_fees_result(community_fee: Decimal, platform_fee: Decimal, controller_fee: Decimal) -> Result<(), ContractError> {
    if community_fee.atomics > DECIMAL_FRACTIONAL {
        Err(ContractError::PercentageOutOfRange(RatioField::CommunityFee))
    } else if platform_fee.atomics > DECIMAL_FRACTIONAL {
        Err(ContractError::PercentageOutOfRange(RatioField::PlatformFee))
    } else if controller_fee.atomics > DECIMAL_FRACTIONAL {
        Err(ContractError::PercentageOutOfRange(RatioField::ControllerFee))
    } else {
        Ok(())
    }
}

/// Refuses fee rates above one, community fee first.
pub fn validate_fees(community_fee: Decimal, platform_fee: Decimal, controller_fee: Decimal) -> (r: Result<(), ContractError>)
    ensures
        r is Ok <==> (community_fee.atomics <= DECIMAL_FRACTIONAL && platform_fee.atomics <= DECIMAL_FRACTIONAL
            && controller_fee.atomics <= DECIMAL_FRACTIONAL),
        r == validate_fees_result(community_fee, platform_fee, controller_fee),
{
    validate_percentage(community_fee, RatioField::CommunityFee)?;
    validate_percentage(platform_fee, RatioField::PlatformFee)?;
    validate_percentage(controller_fee, RatioField::ControllerFee)?;
    Ok(())
}

/// The state of a new farm, once its fee rates are checked: no shares, no weight,
/// no earnings.
pub fn init(config: &Config) -> (r: Result<State, ContractError>)
    ensures
        (config.community_fee.atomics <= DECIMAL_FRACTIONAL && config.platform_fee.atomics <= DECIMAL_FRACTIONAL
            && config.controller_fee.atomics <= DECIMAL_FRACTIONAL) ==> r == Ok::<State, ContractError>(State {
                previous_spec_share: 0,
                spec_share_index: Decimal { atomics: 0 },
                total_farm_share: 0,
                total_weight: 0,
                earning: 0,
                earning_spec: 0,
            }),
        !(config.community_fee.atomics <= DECIMAL_FRACTIONAL && config.platform_fee.atomics <= DECIMAL_FRACTIONAL
            && config.controller_fee.atomics <= DECIMAL_FRACTIONAL) ==> r is Err
            && (validate_fees_result(config.community_fee, config.platform_fee, config.controller_fee)
                matches Err(e) && r == Err::<State, ContractError>(e)),
{
    validate_fees(config.community_fee, config.platform_fee, config.controller_fee)?;
    Ok(State {
        previous_spec_share: 0,
        spec_share_index: Decimal::zero(),
        total_farm_share: 0,
        total_weight: 0,
        earning: 0,
        earning_spec: 0,
    })
}

/// The fields an owner may change; `None` keeps the current value.
pub struct FarmConfigUpdate {
    pub owner: Option<Vec<u8>>,
    pub platform: Option<Vec<u8>>,
    pub controller: Option<Vec<u8>>,
    pub community_fee: Option<Decimal>,
    pub platform_fee: Option<Decimal>,
    pub controller_fee: Option<Decimal>,
    pub deposit_fee: Option<Decimal>,
    pub lock_start: Option<u64>,
    pub lock_end: Option<u64>,
}

pub open spec fn rate_ok(d: Option<Decimal>) -> bool {
    d matches Some(v) ==> v.atomics <= DECIMAL_FRACTIONAL
}

pub open spec fn addr_or(a: Option<Vec<u8>>, current: Seq<u8>) -> Seq<u8> {
    match a {
        Some(v) => v@,
        None => current,
    }
}

pub open spec fn or_keep<T>(v: Option<T>, current: T) -> T {
    match v {
        Some(x) => x,
        None => current,
    }
}

/// Changes a farm's configuration on behalf of its owner. A fee rate above one is
/// refused, and then nothing changes.
pub fn update_config(config: &mut Config, sender: &Vec<u8>, update: FarmConfigUpdate) -> (r: Result<(), ContractError>)
    ensures
        ({
            let c = old(config);
            let u = update;
            if c.owner@ != sender@ {
                r == Err::<(), ContractError>(ContractError::Unauthorized)
            } else if !rate_ok(u.community_fee) {
                r == Err::<(), ContractError>(ContractError::PercentageOutOfRange(RatioField::CommunityFee))
            } else if !rate_ok(u.platform_fee) {
                r == Err::<(), ContractError>(ContractError::PercentageOutOfRange(RatioField::PlatformFee))
            } else if !rate_ok(u.controller_fee) {
                r == Err::<(), ContractError>(ContractError::PercentageOutOfRange(RatioField::ControllerFee))
            } else if !rate_ok(u.deposit_fee) {
                r == Err::<(), ContractError>(ContractError::PercentageOutOfRange(RatioField::DepositFee))
            } else {
                &&& r is Ok
                &&& final(config).owner@ == addr_or(u.owner, c.owner@)
                &&& final(config).platform@ == addr_or(u.platform, c.platform@)
                &&& final(config).controller@ == addr_or(u.controller, c.controller@)
                &&& final(config).community_fee == or_keep(u.community_fee, c.community_fee)
                &&& final(config).platform_fee == or_keep(u.platform_fee, c.platform_fee)
                &&& final(config).controller_fee == or_keep(u.controller_fee, c.controller_fee)
                &&& final(config).deposit_fee == or_keep(u.deposit_fee, c.deposit_fee)
                &&& final(config).lock_start == or_keep(u.lock_start, c.lock_start)
                &&& final(config).lock_end == or_keep(u.lock_end, c.lock_end)
            }
        }),
        r is Err ==> {
            &&& final(config).owner@ == old(config).owner@
            &&& final(config).platform@ == old(config).platform@
            &&& final(config).controller@ == old(config).controller@
            &&& final(config).community_fee == old(config).community_fee
            &&& final(config).platform_fee == old(config).platform_fee
            &&& final(config).controller_fee == old(config).controller_fee
            &&& final(config).deposit_fee == old(config).deposit_fee
            &&& final(config).lock_start == old(config).lock_start
            &&& final(config).lock_end == old(config).lock_end
        },
        final(config).spectrum_token@ == old(config).spectrum_token@,
        final(config).spectrum_gov@ == old(config).spectrum_gov@,
        final(config).farm_token@ == old(config).farm_token@,
        final(config).farm_staking@ == old(config).farm_staking@,
{
    if !addr_eq(&config.owner, sender) {
        return Err(ContractError::Unauthorized);
    }
    if let Some(fee) = update.community_fee {
        validate_percentage(fee, RatioField::CommunityFee)?;
    }
    if let Some(fee) = update.platform_fee {
        validate_percentage(fee, RatioField::PlatformFee)?;
    }
    if let Some(fee) = update.controller_fee {
        validate_percentage(fee, RatioField::ControllerFee)?;
    }
    if let Some(fee) = update.deposit_fee {
        validate_percentage(fee, RatioField::DepositFee)?;
    }
    if let Some(owner) = update.owner {
        config.owner = owner;
    }
    if let Some(platform) = update.platform {
        config.platform = platform;
    }
    if let Some(controller) = update.controller {
        config.controller = controller;
    }
    if let Some(fee) = update.community_fee {
        config.community_fee = fee;
    }
    if let Some(fee) = update.platform_fee {
        config.platform_fee = fee;
    }
    if let Some(fee) = update.controller_fee {
        config.controller_fee = fee;
    }
    if let Some(fee) = update.deposit_fee {
        config.deposit_fee = fee;
    }
    if let Some(lock_start) = update.lock_start {
        config.lock_start = lock_start;
    }
    if let Some(lock_end) = update.lock_end {
        config.lock_end = lock_end;
    }
    Ok(())
}

/// A pool registered for the first time, caught up with the state's SPEC index.
pub open spec fn new_pool(s: State) -> PoolInfo {
    PoolInfo {
        total_auto_bond_share: 0,
        total_stake_bond_share: 0,
        total_stake_bond_amount: 0,
        weight: 0,
        auto_compound: false,
        farm_share: 0,
        state_spec_share_index: s.spec_share_index,
        farm_share_index: Decimal { atomics: 0 },
        auto_spec_share_index: Decimal { atomics: 0 },
        stake_spec_share_index: Decimal { atomics: 0 },
        reinvest_allowance: 0,
    }
}

pub open spec fn register_fits(s: State, weight: u32, staked_share: u128) -> bool {
    &&& deposit_fits(s, staked_share)
    &&& deposited(s, staked_share, false) matches Ok(s1) ==> s1.total_weight + weight <= u32::MAX
}

/// Registers the farm's one asset on behalf of the owner (`pool_count` pools are
/// registered already): the farm credits the gov shares gained, and the state's
/// total weight takes the pool's weight.
pub fn register_asset(config: &Config, state: &mut State, pool_count: usize, sender: &Vec<u8>, weight: u32, auto_compound: bool, staked_share: u128) -> (r: Result<PoolInfo, ContractError>)
    requires
        config.owner@ == sender@ && pool_count == 0 ==> register_fits(*old(state), weight, staked_share),
    ensures
        config.owner@ != sender@ ==> r == Err::<PoolInfo, ContractError>(ContractError::Unauthorized) && *final(state) == *old(state),
        config.owner@ == sender@ && pool_count >= 1 ==> r == Err::<PoolInfo, ContractError>(ContractError::AssetAlreadyRegistered) && *final(state) == *old(state),
        config.owner@ == sender@ && pool_count == 0 ==> match deposited(*old(state), staked_share, false) {
            Err(e) => r == Err::<PoolInfo, ContractError>(e),
            Ok(s1) => {
                &&& *final(state) == State { total_weight: (s1.total_weight + weight) as u32, ..s1 }
                &&& r == Ok::<PoolInfo, ContractError>(PoolInfo { weight, auto_compound, ..new_pool(s1) })
            },
        },
        r is Err ==> *final(state) == *old(state),
{
    if !addr_eq(&config.owner, sender) {
        return Err(ContractError::Unauthorized);
    }
    if pool_count >= 1 {
        return Err(ContractError::AssetAlreadyRegistered);
    }
    deposit_spec_reward(state, staked_share, false)?;
    let pool = PoolInfo {
        total_auto_bond_share: 0,
        total_stake_bond_share: 0,
        total_stake_bond_amount: 0,
        weight,
        auto_compound,
        farm_share: 0,
        state_spec_share_index: state.spec_share_index,
        farm_share_index: Decimal::zero(),
        auto_spec_share_index: Decimal::zero(),
        stake_spec_share_index: Decimal::zero(),
        reinvest_allowance: 0,
    };
    state.total_weight = state.total_weight + weight;
    Ok(pool)
}


/// Moves the farm-token shares the state holds for auto-stakers into the pool:
/// the pool's farm share index grows by the shares per auto-stake share.
pub fn migrate_farm_share(state: &State, pool: &mut PoolInfo)
    requires
        old(pool).total_stake_bond_share > 0,
        dec_ratio(state.total_farm_share as int, old(pool).total_stake_bond_share as int) <= u128::MAX,
        old(pool).farm_share_index.atomics + dec_ratio(state.total_farm_share as int, old(pool).total_stake_bond_share as int) <= u128::MAX,
        old(pool).farm_share + state.total_farm_share <= u128::MAX,
    ensures
        *final(pool) == (PoolInfo {
            farm_share_index: Decimal {
                atomics: (old(pool).farm_share_index.atomics + dec_ratio(state.total_farm_share as int, old(pool).total_stake_bond_share as int)) as u128,
            },
            farm_share: (old(pool).farm_share + state.total_farm_share) as u128,
            ..*old(pool)
        }),
{
    let share_per_bond = Decimal::from_ratio(state.total_farm_share, pool.total_stake_bond_share);
    pool.farm_share_index = pool.farm_share_index.add(share_per_bond);
    pool.farm_share = pool.farm_share + state.total_farm_share;
}

} // verus!

//! The platform contract: a board of weighted members that votes on platform
//! matters, with a configuration its owner maintains.

use vstd::prelude::*;
use crate::common::{addr_eq, validate_percentage};
use crate::error::{ContractError, RatioField};
use crate::math::{Decimal, DECIMAL_FRACTIONAL};

verus! {

pub struct Config {
    pub owner: Vec<u8>,
    pub quorum: Decimal,
    pub threshold: Decimal,
    pub voting_period: u64,
    pub effective_delay: u64,
    pub expiration_period: u64,
}

#[derive(Clone, Copy, Debug, PartialEq, Eq, Structural)]
pub struct State {
    pub poll_count: u64,
    /// The sum of the board members' weights.
    pub total_weight: u32,
}

/// A new platform: quorum and threshold must each be at most one.
pub fn instantiate(owner: Vec<u8>, quorum: Decimal, threshold: Decimal, voting_period: u64, effective_delay: u64, expiration_period: u64) -> (r: Result<(Config, State), ContractError>)
    ensures
        quorum.atomics > DECIMAL_FRACTIONAL
            ==> r == Err::<(Config, State), ContractError>(ContractError::PercentageOutOfRange(RatioField::Quorum)),
        quorum.atomics <= DECIMAL_FRACTIONAL && threshold.atomics > DECIMAL_FRACTIONAL
            ==> r == Err::<(Config, State), ContractError>(ContractError::PercentageOutOfRange(RatioField::Threshold)),
        quorum.atomics <= DECIMAL_FRACTIONAL && threshold.atomics <= DECIMAL_FRACTIONAL ==> (r matches Ok((c, s)) && {
            &&& c.owner@ == owner@
            &&& c.quorum == quorum
            &&& c.threshold == threshold
            &&& c.voting_period == voting_period
            &&& c.effective_delay == effective_delay
            &&& c.expiration_period == expiration_period
            &&& s == State { poll_count: 0, total_weight: 0 }
        }),
{
    validate_percentage(quorum, RatioField::Quorum)?;
    validate_percentage(threshold, RatioField::Threshold)?;
    Ok((Config { owner, quorum, threshold, voting_period, effective_delay, expiration_period }, State { poll_count: 0, total_weight: 0 }))
}

/// The fields an owner may change; `None` keeps the current value.
pub struct PlatformConfigUpdate {
    pub owner: Option<Vec<u8>>,
    pub quorum: Option<Decimal>,
    pub threshold: Option<Decimal>,
    pub voting_period: Option<u64>,
    pub effective_delay: Option<u64>,
    pub expiration_period: Option<u64>,
}

/// Changes the configuration on behalf of the owner; a quorum or threshold above
/// one is refused, and then nothing changes.
pub fn update_config(config: &mut Config, sender: &Vec<u8>, update: PlatformConfigUpdate) -> (r: Result<(), ContractError>)
    ensures
        ({
            let c = old(config);
            let u = update;
            if c.owner@ != sender@ {
                r == Err::<(), ContractError>(ContractError::Unauthorized)
            } else if u.quorum matches Some(q) && q.atomics > DECIMAL_FRACTIONAL {
                r == Err::<(), ContractError>(ContractError::PercentageOutOfRange(RatioField::Quorum))
            } else if u.threshold matches Some(t) && t.atomics > DECIMAL_FRACTIONAL {
                r == Err::<(), ContractError>(ContractError::PercentageOutOfRange(RatioField::Threshold))
            } else {
                &&& r is Ok
                &&& final(config).owner@ == crate::farm::contract::addr_or(u.owner, c.owner@)
                &&& final(config).quorum == crate::farm::contract::or_keep(u.quorum, c.quorum)
                &&& final(config).threshold == crate::farm::contract::or_keep(u.threshold, c.threshold)
                &&& final(config).voting_period == crate::farm::contract::or_keep(u.voting_period, c.voting_period)
                &&& final(config).effective_delay == crate::farm::contract::or_keep(u.effective_delay, c.effective_delay)
                &&& final(config).expiration_period == crate::farm::contract::or_keep(u.expiration_period, c.expiration_period)
            }
        }),
        r is Err ==> {
            &&& final(config).owner@ == old(config).owner@
            &&& final(config).quorum == old(config).quorum
            &&& final(config).threshold == old(config).threshold
            &&& final(config).voting_period == old(config).voting_period
            &&& final(config).effective_delay == old(config).effective_delay
            &&& final(config).expiration_period == old(config).expiration_period
        },
{
    if !addr_eq(&config.owner, sender) {
        return Err(ContractError::Unauthorized);
    }
    if let Some(q) = update.quorum {
        validate_percentage(q, RatioField::Quorum)?;
    }
    if let Some(t) = update.threshold {
        validate_percentage(t, RatioField::Threshold)?;
    }
    if let Some(owner) = update.owner {
        config.owner = owner;
    }
    if let Some(q) = update.quorum {
        config.quorum = q;
    }
    if let Some(t) = update.threshold {
        config.threshold = t;
    }
    if let Some(v) = update.voting_period {
        config.voting_period = v;
    }
    if let Some(v) = update.effective_delay {
        config.effective_delay = v;
    }
    if let Some(v) = update.expiration_period {
        config.expiration_period = v;
    }
    Ok(())
}

/// Sets a board member's weight (`old_weight` is its current weight, zero for a
/// newcomer) on behalf of the owner. Returns whether the member stays on the
/// board: a weight of zero removes it.
pub fn upsert_board(config: &Config, state: &mut State, sender: &Vec<u8>, old_weight: u32, weight: u32) -> (r: Result<bool, ContractError>)
    requires
        config.owner@ == sender@ ==> old(state).total_weight + weight <= u32::MAX,
        config.owner@ == sender@ ==> old(state).total_weight + weight >= old_weight,
    ensures
        config.owner@ != sender@ ==> r == Err::<bool, ContractError>(ContractError::Unauthorized) && *final(state) == *old(state),
        config.owner@ == sender@ ==> r == Ok::<bool, ContractError>(weight != 0)
            && *final(state) == board_upserted(*old(state), old_weight, weight),
{
    if !addr_eq(&config.owner, sender) {
        return Err(ContractError::Unauthorized);
    }
    state.total_weight = state.total_weight + weight - old_weight;
    Ok(weight != 0)
}

/// The state after a board member's weight moves from `old_weight` to `weight`.
pub open spec fn board_upserted(s: State, old_weight: u32, weight: u32) -> State {
    State { total_weight: (s.total_weight + weight - old_weight) as u32, ..s }
}

/// Setting a member's weight and then setting it back restores the state.
pub proof fn lemma_upsert_board_undone(s: State, old_weight: u32, weight: u32)
    requires
        s.total_weight + weight <= u32::MAX,
        s.total_weight + weight >= old_weight,
    ensures
        board_upserted(board_upserted(s, old_weight, weight), weight, old_weight) == s,
{
}

} // verus!

//! The deployer contract: code versions registered per contract, and migrations
//! allowed once a version has waited out the time lock.

use vstd::prelude::*;
use crate::common::addr_eq;
use crate::error::ContractError;

verus! {

pub struct Config {
    pub owner: Vec<u8>,
    /// Registers code versions.
    pub manager: Vec<u8>,
    /// Migrates contracts.
    pub operator: Vec<u8>,
    /// Seconds a code version waits before a contract may migrate to it.
    pub time_lock: u64,
}

/// A code version registered for a contract.
#[derive(Clone, Copy, Debug, PartialEq, Eq, Structural)]
pub struct CodeInfo {
    pub code_id: u64,
    /// When it was registered, in seconds.
    pub created_time: u64,
}

/// Registers code `code_id` at time `now` on behalf of the manager.
pub fn add_contract(config: &Config, sender: &Vec<u8>, code_id: u64, now: u64) -> (r: Result<CodeInfo, ContractError>)
    ensures
        config.manager@ != sender@ ==> r == Err::<CodeInfo, ContractError>(ContractError::Unauthorized),
        config.manager@ == sender@ ==> r == Ok::<CodeInfo, ContractError>(CodeInfo { code_id, created_time: now }),
{
    if !addr_eq(&config.manager, sender) {
        return Err(ContractError::Unauthorized);
    }
    Ok(CodeInfo { code_id, created_time: now })
}

/// Changes the registered versions of a contract on behalf of the manager:
/// returns the version to add, if any; the ones to remove go as given.
pub fn update_contract(config: &Config, sender: &Vec<u8>, add_code_id: Option<u64>, now: u64) -> (r: Result<Option<CodeInfo>, ContractError>)
    ensures
        config.manager@ != sender@ ==> r == Err::<Option<CodeInfo>, ContractError>(ContractError::Unauthorized),
        config.manager@ == sender@ ==> r == Ok::<Option<CodeInfo>, ContractError>(match add_code_id {
            Some(id) => Some(CodeInfo { code_id: id, created_time: now }),
            None => None,
        }),
{
    if !addr_eq(&config.manager, sender) {
        return Err(ContractError::Unauthorized);
    }
    match add_code_id {
        Some(id) => Ok(Some(CodeInfo { code_id: id, created_time: now })),
        None => Ok(None),
    }
}

/// Changes owner, operator or time lock on behalf of the owner.
pub fn update_config(config: &mut Config, sender: &Vec<u8>, owner: Option<Vec<u8>>, operator: Option<Vec<u8>>, time_lock: Option<u64>) -> (r: Result<(), ContractError>)
    ensures
        old(config).owner@ != sender@ ==> r == Err::<(), ContractError>(ContractError::Unauthorized)
            && final(config).owner@ == old(config).owner@ && final(config).operator@ == old(config).operator@
            && final(config).time_lock == old(config).time_lock,
        old(config).owner@ == sender@ ==> {
            &&& r is Ok
            &&& final(config).owner@ == crate::farm::contract::addr_or(owner, old(config).owner@)
            &&& final(config).operator@ == crate::farm::contract::addr_or(operator, old(config).operator@)
            &&& final(config).time_lock == crate::farm::contract::or_keep(time_lock, old(config).time_lock)
        },
        final(config).manager@ == old(config).manager@,
{
    if !addr_eq(&config.owner, sender) {
        return Err(ContractError::Unauthorized);
    }
    if let Some(o) = owner {
        config.owner = o;
    }
    if let Some(o) = operator {
        config.operator = o;
    }
    if let Some(t) = time_lock {
        config.time_lock = t;
    }
    Ok(())
}

/// Whether a contract may migrate to a registered version at time `now`: only the
/// operator may, only to a registered version (`code`), and only once the version
/// is older than the time lock.
pub fn check_migrate(config: &Config, sender: &Vec<u8>, code: Option<CodeInfo>, now: u64) -> (r: Result<(), ContractError>)
    requires
        code matches Some(c) ==> c.created_time + config.time_lock <= u64::MAX,
    ensures
        config.operator@ != sender@ ==> r == Err::<(), ContractError>(ContractError::Unauthorized),
        config.operator@ == sender@ ==> r == match code {
            None => Err::<(), ContractError>(ContractError::CodeNotFound),
            Some(c) => if c.created_time + config.time_lock > now {
                Err::<(), ContractError>(ContractError::TimelockActive)
            } else {
                Ok(())
            },
        },
{
    if !addr_eq(&config.operator, sender) {
        return Err(ContractError::Unauthorized);
    }
    match code {
        None => Err(ContractError::CodeNotFound),
        Some(c) => {
            if c.created_time + config.time_lock > now {
                Err(ContractError::TimelockActive)
            } else {
                Ok(())
            }
        },
    }
}

} // verus!

//! The governance contract: SPEC staking pools, vault minting and polls.

pub mod aust;
pub mod contract;
pub mod poll;
pub mod reconcile;
pub mod stake;
pub mod state;

//! Verified share, reward and governance arithmetic of the Spectrum protocol
//! contracts: staking pools and vaults of the governance contract, polls,
//! yield-farm reward indices and auto-compound fee splitting.

pub mod common;
pub mod deployer;
pub mod error;
pub mod farm;
pub mod gov;
pub mod math;
pub mod platform;
pub mod spec_farm;

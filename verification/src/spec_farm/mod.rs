//! The SPEC farm: SPEC staking rewards shared among bonded LP tokens by pool weight.

pub mod bond;
pub mod contract;
pub mod state;

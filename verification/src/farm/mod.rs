//! Auto-compounding yield farms (Anchor, Mirror, Orion, Pylon, Nexus, Astroport):
//! bond shares, SPEC and farm-token reward indices, and the splitting of harvested
//! rewards into commission, re-investment and staking.

pub mod bond;
pub mod compound;
pub mod contract;
pub mod harvest;
pub mod state;
pub mod withdraw;

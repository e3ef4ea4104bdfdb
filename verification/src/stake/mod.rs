//! Staking of LP share tokens: bonds and unbonds, reward distribution flows
//! funded along reward curves, and the rewards history of the older scheme.
pub mod error;
pub mod storage;
pub mod distribution;
pub mod contract;
pub mod utils;
pub mod laws;

//! A sample contract that stores vesting records.
pub mod contract;
pub mod error;

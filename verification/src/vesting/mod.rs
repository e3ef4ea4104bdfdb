//! Token vesting: schedules that release tokens along decreasing curves,
//! claims of what has been released, and an optional minter.
pub mod error;
pub mod storage;
pub mod utils;
pub mod contract;
pub mod laws;

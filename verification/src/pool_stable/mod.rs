//! The stable-swap liquidity pool.
use vstd::prelude::*;

pub mod contract;
pub mod error;
pub mod math;
pub mod storage;

verus! {

/// Balances are compared at 18 decimal digits.
pub const DECIMAL_PRECISION: u32 = 18;

} // verus!
pub mod laws;

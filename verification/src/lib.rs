//! Verified core of the Phoenix DEX contracts: fixed-point decimals, reward and
//! vesting curves, stable-swap arithmetic over 256-bit host integers, staking
//! reward distribution, vesting balances and the two-step admin hand-over.
use vstd::prelude::*;

pub mod address;
pub mod curve;
pub mod decimal;
pub mod pool_stable;
pub mod sample;
pub mod stake;
pub mod stake_rewards;
pub mod trader;
pub mod utils;
pub mod vesting;
pub mod wide;

verus! {

} // verus!

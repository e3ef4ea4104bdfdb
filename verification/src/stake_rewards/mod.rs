//! Reward distribution for stakers: the points-per-share bookkeeping and the
//! annualized payout of a reward curve.
use vstd::prelude::*;

pub mod contract;
pub mod distribution;
pub mod laws;
pub mod storage;

verus! {

/// How many staked tokens make one unit of rewards power.
pub const TOKEN_PER_POWER: i32 = 1_000;

} // verus!

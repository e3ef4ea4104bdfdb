//! The staking-rewards contract's stored state.
use vstd::prelude::*;

use crate::address::AddressKey;

verus! {

/// The contract's configuration.
#[derive(Clone, Copy, Debug, PartialEq, Eq, Structural)]
pub struct Config {
    /// The staking contract this reward distribution is tied to.
    pub staking_contract: AddressKey,
    /// The token distributed through this contract.
    pub reward_token: AddressKey,
    /// The largest number of points the reward curve may have.
    pub max_complexity: u32,
    /// The smallest reward amount that may be distributed.
    pub min_reward: i128,
    /// Bonds below this count for no rewards power.
    pub min_bond: i128,
}

/// Keys of the contract's persistent storage; `index` is the number each is stored under.
#[derive(Clone, Copy, Debug, PartialEq, Eq, Structural)]
pub enum DataKey {
    Initialized,
    Admin,
}

impl DataKey {
    pub fn index(&self) -> (r: u32)
        ensures
            r == match self {
                DataKey::Initialized => 0u32,
                DataKey::Admin => 1,
            },
    {
        match self {
            DataKey::Initialized => 0,
            DataKey::Admin => 1,
        }
    }
}

/// One bond of a staker.
#[derive(Clone, Copy, Debug, PartialEq, Eq, Structural, Default)]
pub struct Stake {
    /// The amount of staked tokens.
    pub stake: i128,
    /// When the stake was made.
    pub stake_timestamp: u64,
}

/// A staker's bonds and reward bookkeeping.
#[derive(Clone, Debug, PartialEq, Eq)]
pub struct BondingInfo {
    /// The bonds, oldest first.
    pub stakes: Vec<Stake>,
    /// Rewards already credited to the staker.
    pub reward_debt: u128,
    /// When the staker last claimed rewards.
    pub last_reward_time: u64,
    /// The sum of the bonds.
    pub total_stake: i128,
}

} // verus!

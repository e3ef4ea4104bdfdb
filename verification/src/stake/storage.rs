//! The staking contract's stored state, and the updates of the running
//! totals it keeps.
use vstd::prelude::*;

use super::error::ContractError;
use crate::address::AddressKey;

verus! {

/// The contract's configuration.
#[derive(Clone, Copy, Debug, PartialEq, Eq, Structural)]
pub struct Config {
    /// The LP share token that is staked.
    pub lp_token: AddressKey,
    /// The smallest amount that may be bonded.
    pub min_bond: i128,
    /// The smallest amount a distribution may be funded with.
    pub min_reward: i128,
    /// Who may create distribution flows, besides the owner.
    pub manager: AddressKey,
    /// The factory that set up the pool and this contract.
    pub owner: AddressKey,
    /// The largest number of points a reward curve may have.
    pub max_complexity: u32,
}

/// One bond of a staker.
#[derive(Clone, Copy, Debug, PartialEq, Eq, Structural, Default)]
pub struct Stake {
    /// The amount of staked tokens.
    pub stake: i128,
    /// When the stake was made.
    pub stake_timestamp: u64,
}

/// A staker's bonds and reward bookkeeping.
#[derive(Clone, Debug, PartialEq, Eq)]
pub struct BondingInfo {
    /// The bonds, oldest first.
    pub stakes: Vec<Stake>,
    /// Rewards already credited to the staker.
    pub reward_debt: u128,
    /// When the staker last claimed rewards.
    pub last_reward_time: u64,
    /// The sum of the bonds.
    pub total_stake: i128,
}

impl BondingInfo {
    /// The bonding record of a staker who never bonded.
    pub fn empty() -> (r: BondingInfo)
        ensures
            r.stakes@ == Seq::<Stake>::empty(),
            r.reward_debt == 0,
            r.last_reward_time == 0,
            r.total_stake == 0,
    {
        BondingInfo { stakes: Vec::new(), reward_debt: 0, last_reward_time: 0, total_stake: 0 }
    }
}

/// Keys of the contract's persistent storage; `index` is the number each is stored under.
#[derive(Clone, Copy, Debug, PartialEq, Eq, Structural)]
pub enum DataKey {
    Admin,
    TotalStaked,
    Distributions,
    Initialized,
    StakeRewards,
}

impl DataKey {
    pub fn index(&self) -> (r: u32)
        ensures
            r == match self {
                DataKey::Admin => 0u32,
                DataKey::TotalStaked => 1,
                DataKey::Distributions => 2,
                DataKey::Initialized => 3,
                DataKey::StakeRewards => 4,
            },
    {
        match self {
            DataKey::Admin => 0,
            DataKey::TotalStaked => 1,
            DataKey::Distributions => 2,
            DataKey::Initialized => 3,
            DataKey::StakeRewards => 4,
        }
    }
}

/// The total staked after `amount` more was bonded; refused on overflow.
pub fn increase_total_staked(count: i128, amount: i128) -> (r: Result<i128, ContractError>)
    ensures
        r == if i128::MIN <= count + amount <= i128::MAX {
            Ok::<i128, ContractError>((count + amount) as i128)
        } else {
            Err(ContractError::ContractMathError)
        },
{
    match count.checked_add(amount) {
        Some(v) => Ok(v),
        None => Err(ContractError::ContractMathError),
    }
}

/// The total staked after `amount` was unbonded; refused on overflow.
pub fn decrease_total_staked(count: i128, amount: i128) -> (r: Result<i128, ContractError>)
    ensures
        r == if i128::MIN <= count - amount <= i128::MAX {
            Ok::<i128, ContractError>((count - amount) as i128)
        } else {
            Err(ContractError::ContractMathError)
        },
{
    match count.checked_sub(amount) {
        Some(v) => Ok(v),
        None => Err(ContractError::ContractMathError),
    }
}

/// Registers `asset` as a distributed reward token, refusing one that is
/// already registered.
pub fn add_distribution(distributions: &mut Vec<AddressKey>, asset: AddressKey) -> (r: Result<(), ContractError>)
    ensures
        old(distributions)@.contains(asset) ==> r == Err::<(), ContractError>(ContractError::DistributionExists)
            && final(distributions)@ == old(distributions)@,
        !old(distributions)@.contains(asset) ==> r is Ok && final(distributions)@ == old(distributions)@.push(asset),
{
    let mut i: usize = 0;
    while i < distributions.len()
        invariant
            0 <= i <= distributions@.len(),
            distributions@ == old(distributions)@,
            forall|k: int| 0 <= k < i ==> distributions@[k] != asset,
        decreases distributions@.len() - i,
    {
        if distributions[i].same(&asset) {
            assert(distributions@[i as int] == asset);
            return Err(ContractError::DistributionExists);
        }
        i = i + 1;
    }
    distributions.push(asset);
    Ok(())
}

} // verus!

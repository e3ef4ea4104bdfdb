//! The vesting contract's stored records.
use vstd::prelude::*;

use crate::address::AddressKey;
use crate::curve::Curve;

verus! {

/// Keys of the contract's storage; `index` is the number each is stored under.
#[derive(Clone, Copy, Debug, PartialEq, Eq, Structural)]
pub enum DataKey {
    Admin,
    Config,
    Minter,
    Whitelist,
    VestingTokenInfo,
    MaxVestingComplexity,
    IsInitialized,
}

impl DataKey {
    pub fn index(&self) -> (r: u32)
        ensures
            r == match self {
                DataKey::Admin => 1u32,
                DataKey::Config => 2,
                DataKey::Minter => 3,
                DataKey::Whitelist => 4,
                DataKey::VestingTokenInfo => 5,
                DataKey::MaxVestingComplexity => 6,
                DataKey::IsInitialized => 7,
            },
    {
        match self {
            DataKey::Admin => 1,
            DataKey::Config => 2,
            DataKey::Minter => 3,
            DataKey::Whitelist => 4,
            DataKey::VestingTokenInfo => 5,
            DataKey::MaxVestingComplexity => 6,
            DataKey::IsInitialized => 7,
        }
    }
}

/// The token being vested.
#[derive(Clone, Debug, PartialEq, Eq)]
pub struct VestingTokenInfo {
    pub name: String,
    pub symbol: String,
    pub decimals: u32,
    pub address: AddressKey,
}

/// A schedule to create: who receives, and the curve of what stays locked.
#[derive(Clone, Debug, PartialEq, Eq)]
pub struct VestingSchedule {
    pub recipient: AddressKey,
    pub curve: Curve,
}

/// A created schedule and the tokens of it not yet claimed.
#[derive(Clone, Debug, PartialEq, Eq)]
pub struct VestingInfo {
    /// The tokens left to be claimed; lowered by each claim.
    pub balance: u128,
    pub recipient: AddressKey,
    pub schedule: Curve,
}

/// Who may mint, and how much more they may mint.
#[derive(Clone, Copy, Debug, PartialEq, Eq, Structural)]
pub struct MinterInfo {
    pub address: AddressKey,
    pub mint_capacity: u128,
}

impl MinterInfo {
    /// The minting capacity as a flat curve.
    pub fn get_curve(&self) -> (r: Curve)
        ensures
            r == Curve::Constant(self.mint_capacity),
    {
        Curve::Constant(self.mint_capacity)
    }
}

/// The key of a recipient's `index`-th schedule.
#[derive(Clone, Copy, Debug, PartialEq, Eq, Structural)]
pub struct VestingInfoKey {
    pub recipient: AddressKey,
    pub index: u64,
}

} // verus!

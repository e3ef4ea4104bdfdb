//! The trader contract's stored records.
use vstd::prelude::*;

verus! {

/// Keys of the contract's storage; `index` is the number each is stored under.
#[derive(Clone, Copy, Debug, PartialEq, Eq, Structural)]
pub enum DataKey {
    Admin,
    ContractId,
    Pair,
    Token,
    MaxSpread,
    IsInitialized,
}

impl DataKey {
    pub fn index(&self) -> (r: u32)
        ensures
            r == match self {
                DataKey::Admin => 0u32,
                DataKey::ContractId => 1,
                DataKey::Pair => 2,
                DataKey::Token => 3,
                DataKey::MaxSpread => 4,
                DataKey::IsInitialized => 5,
            },
    {
        match self {
            DataKey::Admin => 0,
            DataKey::ContractId => 1,
            DataKey::Pair => 2,
            DataKey::Token => 3,
            DataKey::MaxSpread => 4,
            DataKey::IsInitialized => 5,
        }
    }
}

/// A token held by the contract: its symbol and the amount held.
#[derive(Clone, Debug, PartialEq, Eq)]
pub struct Asset {
    pub symbol: String,
    pub amount: i128,
}

/// What the contract holds of the output token and of the pair's tokens.
#[derive(Clone, Debug, PartialEq, Eq)]
pub struct BalanceInfo {
    pub output_token: Asset,
    pub token_a: Asset,
    pub token_b: Asset,
}

} // verus!

//! The sample contract: vesting records keyed by address.
use vstd::prelude::*;

use super::error::ContractError;
use crate::address::AddressKey;
use crate::curve::Curve;

verus! {

/// The sample contract.
pub struct Sample;

/// A vesting record to create for `address`.
#[derive(Clone, Debug, PartialEq, Eq)]
pub struct VestingBalance {
    pub address: AddressKey,
    pub balance: i128,
    pub curve: Curve,
}

/// The vesting record stored for an address.
#[derive(Clone, Debug, PartialEq, Eq)]
pub struct VestingInfo {
    pub balance: i128,
    pub curve: Curve,
}

impl Sample {
    /// The record found for an address, or `Std` when there is none.
    pub fn query(found: Option<VestingInfo>) -> (r: Result<VestingInfo, ContractError>)
        ensures
            r == match found {
                Some(v) => Ok::<VestingInfo, ContractError>(v),
                None => Err(ContractError::Std),
            },
    {
        match found {
            Some(v) => Ok(v),
            None => Err(ContractError::Std),
        }
    }
}

} // verus!

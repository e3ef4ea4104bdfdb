//! Errors by which the contract refuses a request.
use vstd::prelude::*;

use crate::curve::CurveError;

verus! {

/// Why the contract refused a request; `code` gives the number the contract reports.
#[derive(Clone, Copy, Debug, PartialEq, Eq, Structural)]
pub enum ContractError {
    Std,
    VestingNotFoundForAddress,
    SupplyOverTheCap,
}

impl ContractError {
    /// The numeric error code reported for this error.
    pub fn code(&self) -> (r: u32)
        ensures
            r == self.spec_code(),
    {
        match self {
            ContractError::Std => 0,
            ContractError::VestingNotFoundForAddress => 1,
            ContractError::SupplyOverTheCap => 2,
        }
    }

    pub open spec fn spec_code(&self) -> u32 {
        match self {
            ContractError::Std => 0,
            ContractError::VestingNotFoundForAddress => 1,
            ContractError::SupplyOverTheCap => 2,
        }
    }
}

/// Every refusal of a curve is reported as one contract error.
impl From<CurveError> for ContractError {
    fn from(e: CurveError) -> (r: ContractError) {
        ContractError::Std
    }
}

impl vstd::std_specs::convert::FromSpecImpl<CurveError> for ContractError {
    open spec fn obeys_from_spec() -> bool {
        true
    }

    open spec fn from_spec(v: CurveError) -> ContractError {
        ContractError::Std
    }
}

} // verus!

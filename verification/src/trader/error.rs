//! Errors by which the contract refuses a request.
use vstd::prelude::*;

verus! {

/// Why the contract refused a request; `code` gives the number the contract reports.
#[derive(Clone, Copy, Debug, PartialEq, Eq, Structural)]
pub enum ContractError {
    AdminNotFound,
    ContractIdNotFound,
    PairNotFound,
    OutputTokenNotFound,
    MaxSpreadNotFound,
    Unauthorized,
    SwapTokenNotInPair,
    InvalidMaxSpreadBps,
    InitValueNotFound,
    AlreadyInitialized,
    AdminNotSet,
    SameAdmin,
    NoAdminChangeInPlace,
    AdminChangeExpired,
    OutputTokenInPair,
}

impl ContractError {
    /// The numeric error code reported for this error.
    pub fn code(&self) -> (r: u32)
        ensures
            r == self.spec_code(),
    {
        match self {
            ContractError::AdminNotFound => 601,
            ContractError::ContractIdNotFound => 602,
            ContractError::PairNotFound => 603,
            ContractError::OutputTokenNotFound => 604,
            ContractError::MaxSpreadNotFound => 605,
            ContractError::Unauthorized => 606,
            ContractError::SwapTokenNotInPair => 607,
            ContractError::InvalidMaxSpreadBps => 608,
            ContractError::InitValueNotFound => 609,
            ContractError::AlreadyInitialized => 610,
            ContractError::AdminNotSet => 611,
            ContractError::SameAdmin => 612,
            ContractError::NoAdminChangeInPlace => 613,
            ContractError::AdminChangeExpired => 614,
            ContractError::OutputTokenInPair => 615,
        }
    }

    pub open spec fn spec_code(&self) -> u32 {
        match self {
            ContractError::AdminNotFound => 601,
            ContractError::ContractIdNotFound => 602,
            ContractError::PairNotFound => 603,
            ContractError::OutputTokenNotFound => 604,
            ContractError::MaxSpreadNotFound => 605,
            ContractError::Unauthorized => 606,
            ContractError::SwapTokenNotInPair => 607,
            ContractError::InvalidMaxSpreadBps => 608,
            ContractError::InitValueNotFound => 609,
            ContractError::AlreadyInitialized => 610,
            ContractError::AdminNotSet => 611,
            ContractError::SameAdmin => 612,
            ContractError::NoAdminChangeInPlace => 613,
            ContractError::AdminChangeExpired => 614,
            ContractError::OutputTokenInPair => 615,
        }
    }
}

} // verus!

//! Errors by which the contract refuses a request.
use vstd::prelude::*;

use crate::curve::CurveError;

verus! {

/// Why the contract refused a request; `code` gives the number the contract reports.
#[derive(Clone, Copy, Debug, PartialEq, Eq, Structural)]
pub enum ContractError {
    VestingNotFoundForAddress,
    AllowanceNotFoundForGivenPair,
    MinterNotFound,
    NoBalanceFoundForAddress,
    NoConfigFound,
    NoAdminFound,
    MissingBalance,
    VestingComplexityTooHigh,
    TotalVestedOverCapacity,
    InvalidTransferAmount,
    CantMoveVestingTokens,
    NotEnoughCapacity,
    NotAuthorized,
    NeverFullyVested,
    VestsMoreThanSent,
    InvalidBurnAmount,
    InvalidMintAmount,
    InvalidAllowanceAmount,
    DuplicateInitialBalanceAddresses,
    CurveError,
    NoWhitelistFound,
    NoTokenInfoFound,
    NoVestingComplexityValueFound,
    NoAddressesToAdd,
    NoEnoughtTokensToStart,
    NotEnoughBalance,
    VestingBothPresent,
    VestingNonePresent,
    CurveConstant,
    CurveSLNotDecreasing,
    AlreadyInitialized,
    AdminNotFound,
    ContractMathError,
    SameAdmin,
    NoAdminChangeInPlace,
    AdminChangeExpired,
}

impl ContractError {
    /// The numeric error code reported for this error.
    pub fn code(&self) -> (r: u32)
        ensures
            r == self.spec_code(),
    {
        match self {
            ContractError::VestingNotFoundForAddress => 700,
            ContractError::AllowanceNotFoundForGivenPair => 701,
            ContractError::MinterNotFound => 702,
            ContractError::NoBalanceFoundForAddress => 703,
            ContractError::NoConfigFound => 704,
            ContractError::NoAdminFound => 705,
            ContractError::MissingBalance => 706,
            ContractError::VestingComplexityTooHigh => 707,
            ContractError::TotalVestedOverCapacity => 708,
            ContractError::InvalidTransferAmount => 709,
            ContractError::CantMoveVestingTokens => 710,
            ContractError::NotEnoughCapacity => 711,
            ContractError::NotAuthorized => 712,
            ContractError::NeverFullyVested => 713,
            ContractError::VestsMoreThanSent => 714,
            ContractError::InvalidBurnAmount => 715,
            ContractError::InvalidMintAmount => 716,
            ContractError::InvalidAllowanceAmount => 717,
            ContractError::DuplicateInitialBalanceAddresses => 718,
            ContractError::CurveError => 719,
            ContractError::NoWhitelistFound => 720,
            ContractError::NoTokenInfoFound => 721,
            ContractError::NoVestingComplexityValueFound => 722,
            ContractError::NoAddressesToAdd => 723,
            ContractError::NoEnoughtTokensToStart => 724,
            ContractError::NotEnoughBalance => 725,
            ContractError::VestingBothPresent => 726,
            ContractError::VestingNonePresent => 727,
            ContractError::CurveConstant => 728,
            ContractError::CurveSLNotDecreasing => 729,
            ContractError::AlreadyInitialized => 730,
            ContractError::AdminNotFound => 731,
            ContractError::ContractMathError => 732,
            ContractError::SameAdmin => 733,
            ContractError::NoAdminChangeInPlace => 734,
            ContractError::AdminChangeExpired => 735,
        }
    }

    pub open spec fn spec_code(&self) -> u32 {
        match self {
            ContractError::VestingNotFoundForAddress => 700,
            ContractError::AllowanceNotFoundForGivenPair => 701,
            ContractError::MinterNotFound => 702,
            ContractError::NoBalanceFoundForAddress => 703,
            ContractError::NoConfigFound => 704,
            ContractError::NoAdminFound => 705,
            ContractError::MissingBalance => 706,
            ContractError::VestingComplexityTooHigh => 707,
            ContractError::TotalVestedOverCapacity => 708,
            ContractError::InvalidTransferAmount => 709,
            ContractError::CantMoveVestingTokens => 710,
            ContractError::NotEnoughCapacity => 711,
            ContractError::NotAuthorized => 712,
            ContractError::NeverFullyVested => 713,
            ContractError::VestsMoreThanSent => 714,
            ContractError::InvalidBurnAmount => 715,
            ContractError::InvalidMintAmount => 716,
            ContractError::InvalidAllowanceAmount => 717,
            ContractError::DuplicateInitialBalanceAddresses => 718,
            ContractError::CurveError => 719,
            ContractError::NoWhitelistFound => 720,
            ContractError::NoTokenInfoFound => 721,
            ContractError::NoVestingComplexityValueFound => 722,
            ContractError::NoAddressesToAdd => 723,
            ContractError::NoEnoughtTokensToStart => 724,
            ContractError::NotEnoughBalance => 725,
            ContractError::VestingBothPresent => 726,
            ContractError::VestingNonePresent => 727,
            ContractError::CurveConstant => 728,
            ContractError::CurveSLNotDecreasing => 729,
            ContractError::AlreadyInitialized => 730,
            ContractError::AdminNotFound => 731,
            ContractError::ContractMathError => 732,
            ContractError::SameAdmin => 733,
            ContractError::NoAdminChangeInPlace => 734,
            ContractError::AdminChangeExpired => 735,
        }
    }
}

/// Every refusal of a curve is reported as one contract error.
impl From<CurveError> for ContractError {
    fn from(e: CurveError) -> (r: ContractError) {
        ContractError::CurveError
    }
}

impl vstd::std_specs::convert::FromSpecImpl<CurveError> for ContractError {
    open spec fn obeys_from_spec() -> bool {
        true
    }

    open spec fn from_spec(v: CurveError) -> ContractError {
        ContractError::CurveError
    }
}

} // verus!

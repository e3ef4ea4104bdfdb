//! Errors by which the contract refuses a request.
use vstd::prelude::*;

verus! {

/// Why the contract refused a request; `code` gives the number the contract reports.
#[derive(Clone, Copy, Debug, PartialEq, Eq, Structural)]
pub enum ContractError {
    AlreadyInitialized,
    InvalidMinBond,
    InvalidMinReward,
    InvalidBond,
    Unauthorized,
    MinRewardNotEnough,
    RewardsInvalid,
    StakeNotFound,
    InvalidTime,
    DistributionExists,
    InvalidRewardAmount,
    InvalidMaxComplexity,
    DistributionNotFound,
    AdminNotSet,
    ContractMathError,
    RewardCurveDoesNotExist,
    SameAdmin,
    NoAdminChangeInPlace,
    AdminChangeExpired,
}

impl ContractError {
    /// The numeric error code reported for this error.
    pub fn code(&self) -> (r: u32)
        ensures
            r == self.spec_code(),
    {
        match self {
            ContractError::AlreadyInitialized => 500,
            ContractError::InvalidMinBond => 501,
            ContractError::InvalidMinReward => 502,
            ContractError::InvalidBond => 503,
            ContractError::Unauthorized => 504,
            ContractError::MinRewardNotEnough => 505,
            ContractError::RewardsInvalid => 506,
            ContractError::StakeNotFound => 509,
            ContractError::InvalidTime => 510,
            ContractError::DistributionExists => 511,
            ContractError::InvalidRewardAmount => 512,
            ContractError::InvalidMaxComplexity => 513,
            ContractError::DistributionNotFound => 514,
            ContractError::AdminNotSet => 515,
            ContractError::ContractMathError => 516,
            ContractError::RewardCurveDoesNotExist => 517,
            ContractError::SameAdmin => 518,
            ContractError::NoAdminChangeInPlace => 519,
            ContractError::AdminChangeExpired => 520,
        }
    }

    pub open spec fn spec_code(&self) -> u32 {
        match self {
            ContractError::AlreadyInitialized => 500,
            ContractError::InvalidMinBond => 501,
            ContractError::InvalidMinReward => 502,
            ContractError::InvalidBond => 503,
            ContractError::Unauthorized => 504,
            ContractError::MinRewardNotEnough => 505,
            ContractError::RewardsInvalid => 506,
            ContractError::StakeNotFound => 509,
            ContractError::InvalidTime => 510,
            ContractError::DistributionExists => 511,
            ContractError::InvalidRewardAmount => 512,
            ContractError::InvalidMaxComplexity => 513,
            ContractError::DistributionNotFound => 514,
            ContractError::AdminNotSet => 515,
            ContractError::ContractMathError => 516,
            ContractError::RewardCurveDoesNotExist => 517,
            ContractError::SameAdmin => 518,
            ContractError::NoAdminChangeInPlace => 519,
            ContractError::AdminChangeExpired => 520,
        }
    }
}

} // verus!

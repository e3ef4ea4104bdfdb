//! Errors by which the contract refuses a request.
use vstd::prelude::*;

verus! {

/// Why the contract refused a request; `code` gives the number the contract reports.
#[derive(Clone, Copy, Debug, PartialEq, Eq, Structural)]
pub enum ContractError {
    SpreadExceedsLimit,
    ProvideLiquiditySlippageToleranceTooHigh,
    WithdrawLiquidityMinimumAmountOfAOrBIsNotSatisfied,
    ValidateFeeBpsTotalFeesCantBeGreaterThan100,
    TotalSharesEqualZero,
    AssetNotInPool,
    AlreadyInitialized,
    TokenABiggerThanTokenB,
    InvalidBps,
    LowLiquidity,
    Unauthorized,
    IncorrectAssetSwap,
    NewtonMethodFailed,
    CalcYErr,
    SwapMinReceivedBiggerThanReturn,
    ProvideLiquidityBothTokensMustBeMoreThanZero,
    DivisionByZero,
    InvalidAMP,
    TransactionAfterTimestampDeadline,
    SlippageToleranceExceeded,
    IssuedSharesLessThanUserRequested,
    SwapFeeBpsOverLimit,
    UserDeclinesPoolFee,
    AdminNotSet,
    ContractMathError,
    NegativeInputProvided,
    SameAdmin,
    NoAdminChangeInPlace,
    AdminChangeExpired,
}

impl ContractError {
    /// The numeric error code reported for this error.
    pub fn code(&self) -> (r: u32)
        ensures
            r == self.spec_code(),
    {
        match self {
            ContractError::SpreadExceedsLimit => 400,
            ContractError::ProvideLiquiditySlippageToleranceTooHigh => 401,
            ContractError::WithdrawLiquidityMinimumAmountOfAOrBIsNotSatisfied => 402,
            ContractError::ValidateFeeBpsTotalFeesCantBeGreaterThan100 => 403,
            ContractError::TotalSharesEqualZero => 404,
            ContractError::AssetNotInPool => 405,
            ContractError::AlreadyInitialized => 406,
            ContractError::TokenABiggerThanTokenB => 407,
            ContractError::InvalidBps => 408,
            ContractError::LowLiquidity => 409,
            ContractError::Unauthorized => 410,
            ContractError::IncorrectAssetSwap => 411,
            ContractError::NewtonMethodFailed => 412,
            ContractError::CalcYErr => 413,
            ContractError::SwapMinReceivedBiggerThanReturn => 414,
            ContractError::ProvideLiquidityBothTokensMustBeMoreThanZero => 415,
            ContractError::DivisionByZero => 416,
            ContractError::InvalidAMP => 417,
            ContractError::TransactionAfterTimestampDeadline => 418,
            ContractError::SlippageToleranceExceeded => 419,
            ContractError::IssuedSharesLessThanUserRequested => 420,
            ContractError::SwapFeeBpsOverLimit => 421,
            ContractError::UserDeclinesPoolFee => 422,
            ContractError::AdminNotSet => 423,
            ContractError::ContractMathError => 424,
            ContractError::NegativeInputProvided => 425,
            ContractError::SameAdmin => 426,
            ContractError::NoAdminChangeInPlace => 427,
            ContractError::AdminChangeExpired => 428,
        }
    }

    pub open spec fn spec_code(&self) -> u32 {
        match self {
            ContractError::SpreadExceedsLimit => 400,
            ContractError::ProvideLiquiditySlippageToleranceTooHigh => 401,
            ContractError::WithdrawLiquidityMinimumAmountOfAOrBIsNotSatisfied => 402,
            ContractError::ValidateFeeBpsTotalFeesCantBeGreaterThan100 => 403,
            ContractError::TotalSharesEqualZero => 404,
            ContractError::AssetNotInPool => 405,
            ContractError::AlreadyInitialized => 406,
            ContractError::TokenABiggerThanTokenB => 407,
            ContractError::InvalidBps => 408,
            ContractError::LowLiquidity => 409,
            ContractError::Unauthorized => 410,
            ContractError::IncorrectAssetSwap => 411,
            ContractError::NewtonMethodFailed => 412,
            ContractError::CalcYErr => 413,
            ContractError::SwapMinReceivedBiggerThanReturn => 414,
            ContractError::ProvideLiquidityBothTokensMustBeMoreThanZero => 415,
            ContractError::DivisionByZero => 416,
            ContractError::InvalidAMP => 417,
            ContractError::TransactionAfterTimestampDeadline => 418,
            ContractError::SlippageToleranceExceeded => 419,
            ContractError::IssuedSharesLessThanUserRequested => 420,
            ContractError::SwapFeeBpsOverLimit => 421,
            ContractError::UserDeclinesPoolFee => 422,
            ContractError::AdminNotSet => 423,
            ContractError::ContractMathError => 424,
            ContractError::NegativeInputProvided => 425,
            ContractError::SameAdmin => 426,
            ContractError::NoAdminChangeInPlace => 427,
            ContractError::AdminChangeExpired => 428,
        }
    }
}

} // verus!

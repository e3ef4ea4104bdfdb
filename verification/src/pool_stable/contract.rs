//! The pool's entry points as decisions over its stored state: the contract
//! shell reads storage, token balances and the ledger time, hands the values
//! here, and performs the transfers these decisions call for.
use soroban_sdk::Env;
use vstd::prelude::*;

use super::error::ContractError;
use super::math::{
    calc_y, calc_y_spec, compute_current_amp, current_amp_spec, scale_spec, scale_value, u128_result,
};
use super::math::{compute_d, compute_d_spec};
use super::storage::{AmplifierParameters, Config, SimulateReverseSwapResponse, SimulateSwapResponse};
use crate::utils::AdminChangeError;
use crate::address::{address_lt, AddressKey};
use crate::utils::{bps_valid, validate_bps};
use crate::wide::wide_to_u128;
use super::DECIMAL_PRECISION;
use crate::decimal::{in_i128, mul_atomics, ratio_atomics, Decimal, DECIMAL_FRACTIONAL};

verus! {

/// Minimum amount of LP shares kept back from the first deposit.
pub const MINIMUM_LIQUIDITY_AMOUNT: u128 = 1000;

/// The largest amplification a pool may be created with.
pub const MAX_AMP: u64 = 1_000_000;

/// The stable-swap liquidity pool contract.
pub struct StableLiquidityPool;

/// `x * rate` as `i128 * Decimal` computes it, or `None` where it overflows.
pub open spec fn mul_decimal_spec(x: int, rate: int) -> Option<int> {
    if in_i128(mul_atomics(x, rate)) {
        Some(mul_atomics(x, rate))
    } else {
        None
    }
}

/// Return, spread and commission once the ask pool has moved to `new_ask_pool`.
pub open spec fn swap_amounts_spec(ask_pool: int, new_ask_pool: int, offer_amount: int, rate: int) -> Result<(int, int, int), ContractError> {
    if ask_pool < new_ask_pool {
        Err(ContractError::ContractMathError)
    } else {
        let ret = ask_pool - new_ask_pool;
        let spread = if offer_amount > ret { offer_amount - ret } else { 0 };
        if spread > i128::MAX || ret > i128::MAX {
            Err(ContractError::ContractMathError)
        } else {
            match mul_decimal_spec(ret, rate) {
                None => Err(ContractError::ContractMathError),
                Some(commission) => if !in_i128(ret - commission) {
                    Err(ContractError::ContractMathError)
                } else {
                    Ok((ret - commission, spread, commission))
                },
            }
        }
    }
}

/// What `compute_swap` gives: the return after commission, the spread
/// (shortfall against a 1:1 rate) and the commission.
pub open spec fn compute_swap_spec(
    amp: int,
    greatest_precision: int,
    offer_pool: int,
    offer_pool_precision: int,
    ask_pool: int,
    ask_pool_precision: int,
    offer_amount: int,
    rate: int,
) -> Result<(int, int, int), ContractError> {
    if offer_pool + offer_amount > u128::MAX {
        Err(ContractError::ContractMathError)
    } else {
        match (
            scale_spec(offer_pool + offer_amount, greatest_precision, DECIMAL_PRECISION as int),
            scale_spec(offer_pool, offer_pool_precision, DECIMAL_PRECISION as int),
            scale_spec(ask_pool, ask_pool_precision, DECIMAL_PRECISION as int),
        ) {
            (Some(new_amount), Some(x0), Some(x1)) => match calc_y_spec(amp, new_amount, x0, x1, greatest_precision) {
                Err(e) => Err(e),
                Ok(new_ask_pool) => swap_amounts_spec(ask_pool, new_ask_pool, offer_amount, rate),
            },
            _ => Err(ContractError::ContractMathError),
        }
    }
}

pub open spec fn triple_result(r: Result<(i128, i128, i128), ContractError>) -> Result<(int, int, int), ContractError> {
    match r {
        Ok((a, b, c)) => Ok((a as int, b as int, c as int)),
        Err(e) => Err(e),
    }
}

/// `x * rate` rounded toward zero, or `ContractMathError` where it overflows.
pub fn checked_mul_decimal(x: i128, rate: Decimal) -> (r: Result<i128, ContractError>)
    ensures
        match mul_decimal_spec(x as int, rate.0 as int) {
            Some(v) => in_i128(v) && r == Ok::<i128, ContractError>(v as i128),
            None => r == Err::<i128, ContractError>(ContractError::ContractMathError),
        },
{
    match Decimal::checked_mul_int(x, rate) {
        Some(v) => Ok(v),
        None => Err(ContractError::ContractMathError),
    }
}

fn swap_amounts(ask_pool: u128, new_ask_pool: u128, offer_amount: u128, commission_rate: Decimal) -> (r: Result<(i128, i128, i128), ContractError>)
    ensures
        triple_result(r) == swap_amounts_spec(ask_pool as int, new_ask_pool as int, offer_amount as int, commission_rate.0 as int),
{
    if ask_pool < new_ask_pool {
        return Err(ContractError::ContractMathError);
    }
    let return_amount = ask_pool - new_ask_pool;
    // We consider swap rate 1:1 in stable swap thus any difference is considered as spread.
    let spread_amount: u128 = if offer_amount > return_amount { offer_amount - return_amount } else { 0 };
    if spread_amount > i128::MAX as u128 || return_amount > i128::MAX as u128 {
        return Err(ContractError::ContractMathError);
    }
    let spread_amount = spread_amount as i128;
    let return_amount = return_amount as i128;
    let commission_amount = match checked_mul_decimal(return_amount, commission_rate) {
        Ok(v) => v,
        Err(e) => return Err(e),
    };
    match return_amount.checked_sub(commission_amount) {
        Some(v) => Ok((v, spread_amount, commission_amount)),
        None => Err(ContractError::ContractMathError),
    }
}

/// The result of selling `offer_amount` into the pool: the amount bought after
/// commission, the spread and the commission. The amplification is the one in
/// force at `block_time`.
pub fn compute_swap(
    env: &Env,
    amp_params: &AmplifierParameters,
    block_time: u64,
    greatest_precision: u32,
    offer_pool: u128,
    offer_pool_precision: u32,
    ask_pool: u128,
    ask_pool_precision: u32,
    offer_amount: u128,
    commission_rate: Decimal,
) -> (r: Result<(i128, i128, i128), ContractError>)
    requires
        block_time < amp_params.next_amp_time ==> amp_params.init_amp_time < amp_params.next_amp_time,
    ensures
        triple_result(r) == compute_swap_spec(
            current_amp_spec(block_time, *amp_params),
            greatest_precision as int,
            offer_pool as int,
            offer_pool_precision as int,
            ask_pool as int,
            ask_pool_precision as int,
            offer_amount as int,
            commission_rate.0 as int,
        ),
{
    let amp = compute_current_amp(block_time, amp_params);
    let new_offer_pool = match offer_pool.checked_add(offer_amount) {
        Some(v) => v,
        None => return Err(ContractError::ContractMathError),
    };
    let new_amount = scale_value(env, new_offer_pool, greatest_precision, DECIMAL_PRECISION);
    let x0 = scale_value(env, offer_pool, offer_pool_precision, DECIMAL_PRECISION);
    let x1 = scale_value(env, ask_pool, ask_pool_precision, DECIMAL_PRECISION);
    let (new_amount, x0, x1) = match (new_amount, x0, x1) {
        (Ok(n), Ok(a), Ok(b)) => (n, a, b),
        _ => return Err(ContractError::ContractMathError),
    };
    let xp = [x0, x1];
    assert(xp@[0] == x0 && xp@[1] == x1);
    let new_ask_pool = match calc_y(env, amp as u128, new_amount, &xp, greatest_precision) {
        Ok(v) => v,
        Err(e) => return Err(e),
    };
    swap_amounts(ask_pool, new_ask_pool, offer_amount, commission_rate)
}

/// The inverse of `1 - rate`, or `None` where it cannot be formed.
pub open spec fn inv_one_minus_spec(rate: int) -> Option<int> {
    let one_minus = DECIMAL_FRACTIONAL as int - rate;
    if !in_i128(one_minus) || one_minus == 0 {
        None
    } else {
        Some(ratio_atomics(DECIMAL_FRACTIONAL as int, one_minus))
    }
}

/// Offer, spread and commission once the offer pool has moved to `new_offer_pool`.
pub open spec fn offer_amounts_spec(offer_pool: int, new_offer_pool: int, ask_amount: int, ask_before_commission: int, rate: int) -> Result<(int, int, int), ContractError> {
    if new_offer_pool < offer_pool {
        Err(ContractError::ContractMathError)
    } else {
        let offer_amount = new_offer_pool - offer_pool;
        let spread = if offer_amount > ask_amount { offer_amount - ask_amount } else { 0 };
        match mul_decimal_spec(ask_before_commission, rate) {
            None => Err(ContractError::ContractMathError),
            Some(commission) => if offer_amount > i128::MAX || spread > i128::MAX {
                Err(ContractError::ContractMathError)
            } else {
                Ok((offer_amount, spread, commission))
            },
        }
    }
}

/// What `compute_offer_amount` gives: the amount to offer, the spread and
/// the commission, for buying `ask_amount` after commission.
pub open spec fn compute_offer_amount_spec(
    amp: int,
    greatest_precision: int,
    offer_pool: int,
    offer_pool_precision: int,
    ask_pool: int,
    ask_pool_precision: int,
    ask_amount: int,
    rate: int,
) -> Result<(int, int, int), ContractError> {
    match inv_one_minus_spec(rate) {
        None => Err(ContractError::ContractMathError),
        Some(inv) => if ask_amount > i128::MAX {
            Err(ContractError::ContractMathError)
        } else {
            match mul_decimal_spec(ask_amount, inv) {
                None => Err(ContractError::ContractMathError),
                Some(before_commission) => if before_commission < 0 || ask_pool < before_commission {
                    Err(ContractError::ContractMathError)
                } else {
                    match (
                        scale_spec(ask_pool - before_commission, greatest_precision, DECIMAL_PRECISION as int),
                        scale_spec(offer_pool, offer_pool_precision, DECIMAL_PRECISION as int),
                        scale_spec(ask_pool, ask_pool_precision, DECIMAL_PRECISION as int),
                    ) {
                        (Some(new_amount), Some(x0), Some(x1)) => match calc_y_spec(amp, new_amount, x0, x1, greatest_precision) {
                            Err(e) => Err(e),
                            Ok(new_offer_pool) => offer_amounts_spec(offer_pool, new_offer_pool, ask_amount, before_commission, rate),
                        },
                        _ => Err(ContractError::ContractMathError),
                    }
                },
            }
        },
    }
}

fn offer_amounts(offer_pool: u128, new_offer_pool: u128, ask_amount: u128, ask_before_commission: i128, commission_rate: Decimal) -> (r: Result<(i128, i128, i128), ContractError>)
    ensures
        triple_result(r) == offer_amounts_spec(offer_pool as int, new_offer_pool as int, ask_amount as int, ask_before_commission as int, commission_rate.0 as int),
{
    if new_offer_pool < offer_pool {
        return Err(ContractError::ContractMathError);
    }
    let offer_amount = new_offer_pool - offer_pool;
    // We consider swap rate 1:1 in stable swap thus any difference is considered as spread.
    let spread_amount: u128 = if offer_amount > ask_amount { offer_amount - ask_amount } else { 0 };
    let commission_amount = match checked_mul_decimal(ask_before_commission, commission_rate) {
        Ok(v) => v,
        Err(e) => return Err(e),
    };
    if offer_amount > i128::MAX as u128 || spread_amount > i128::MAX as u128 {
        return Err(ContractError::ContractMathError);
    }
    Ok((offer_amount as i128, spread_amount as i128, commission_amount))
}

/// The amount to offer for buying `ask_amount` (after commission) from the
/// pool: the offer, the spread and the commission. The amplification is the
/// one in force at `block_time`.
pub fn compute_offer_amount(
    env: &Env,
    amp_params: &AmplifierParameters,
    block_time: u64,
    greatest_precision: u32,
    offer_pool: u128,
    offer_pool_precision: u32,
    ask_pool: u128,
    ask_pool_precision: u32,
    ask_amount: u128,
    commission_rate: Decimal,
) -> (r: Result<(i128, i128, i128), ContractError>)
    requires
        block_time < amp_params.next_amp_time ==> amp_params.init_amp_time < amp_params.next_amp_time,
    ensures
        triple_result(r) == compute_offer_amount_spec(
            current_amp_spec(block_time, *amp_params),
            greatest_precision as int,
            offer_pool as int,
            offer_pool_precision as int,
            ask_pool as int,
            ask_pool_precision as int,
            ask_amount as int,
            commission_rate.0 as int,
        ),
{
    let amp = compute_current_amp(block_time, amp_params);
    let one_minus_commission = match DECIMAL_FRACTIONAL.checked_sub(commission_rate.0) {
        Some(v) => Decimal(v),
        None => return Err(ContractError::ContractMathError),
    };
    if one_minus_commission.0 == 0 {
        return Err(ContractError::ContractMathError);
    }
    proof {
        crate::decimal::lemma_tdiv_in_range(DECIMAL_FRACTIONAL * DECIMAL_FRACTIONAL, one_minus_commission.0 as int);
    }
    let inv_one_minus_commission = Decimal::one().div(one_minus_commission);
    if ask_amount > i128::MAX as u128 {
        return Err(ContractError::ContractMathError);
    }
    let ask_i128 = ask_amount as i128;
    let before_commission = match checked_mul_decimal(ask_i128, inv_one_minus_commission) {
        Ok(v) => v,
        Err(e) => return Err(e),
    };
    assert(inv_one_minus_spec(commission_rate.0 as int) == Some(inv_one_minus_commission.0 as int));
    assert(mul_decimal_spec(ask_amount as int, inv_one_minus_commission.0 as int) == Some(before_commission as int));
    if before_commission < 0 || ask_pool < before_commission as u128 {
        return Err(ContractError::ContractMathError);
    }
    let new_amount = scale_value(env, ask_pool - before_commission as u128, greatest_precision, DECIMAL_PRECISION);
    let x0 = scale_value(env, offer_pool, offer_pool_precision, DECIMAL_PRECISION);
    let x1 = scale_value(env, ask_pool, ask_pool_precision, DECIMAL_PRECISION);
    let (new_amount, x0, x1) = match (new_amount, x0, x1) {
        (Ok(n), Ok(a), Ok(b)) => (n, a, b),
        _ => return Err(ContractError::ContractMathError),
    };
    let xp = [x0, x1];
    assert(xp@[0] == x0 && xp@[1] == x1);
    let new_offer_pool = match calc_y(env, amp as u128, new_amount, &xp, greatest_precision) {
        Ok(v) => v,
        Err(e) => return Err(e),
    };
    let ask_before_commission = before_commission;
    offer_amounts(offer_pool, new_offer_pool, ask_amount, ask_before_commission, commission_rate)
}

/// Refuses a swap whose spread, as a fraction of `return_amount`, exceeds
/// `max_spread`.
pub fn assert_max_spread(max_spread: Decimal, return_amount: i128, spread_amount: i128) -> (r: Result<(), ContractError>)
    ensures
        return_amount == 0 || !in_i128(ratio_atomics(spread_amount as int, return_amount as int))
            ==> r == Err::<(), ContractError>(ContractError::ContractMathError),
        return_amount != 0 && in_i128(ratio_atomics(spread_amount as int, return_amount as int))
            ==> (r == Err::<(), ContractError>(ContractError::SpreadExceedsLimit)
                <==> ratio_atomics(spread_amount as int, return_amount as int) > max_spread.0),
        return_amount != 0 && in_i128(ratio_atomics(spread_amount as int, return_amount as int))
            ==> (r == Ok::<(), ContractError>(())
                <==> ratio_atomics(spread_amount as int, return_amount as int) <= max_spread.0),
{
    // Calculate the spread ratio, the fraction of the return that is due to spread
    let spread_ratio = match Decimal::checked_from_ratio(spread_amount, return_amount) {
        Ok(v) => v,
        Err(_) => return Err(ContractError::ContractMathError),
    };
    if spread_ratio.gt(&max_spread) {
        return Err(ContractError::SpreadExceedsLimit);
    }
    Ok(())
}

/// The amplification a new pool starts with: `amp * 100`, fixed from `now`.
pub open spec fn initial_amp_spec(amp: u64, now: u64) -> AmplifierParameters {
    AmplifierParameters {
        init_amp: (amp * AMP_PRECISION_U64) as u64,
        init_amp_time: now,
        next_amp: (amp * AMP_PRECISION_U64) as u64,
        next_amp_time: now,
    }
}

pub const AMP_PRECISION_U64: u64 = 100;

/// The checks `initialize` makes, in order, and the amplification the pool
/// starts with when all pass.
pub fn validate_initialize(
    already_initialized: bool,
    swap_fee_bps: i64,
    max_allowed_slippage_bps: i64,
    max_allowed_spread_bps: i64,
    default_slippage_bps: i64,
    max_allowed_fee_bps: i64,
    token_a: AddressKey,
    token_b: AddressKey,
    amp: u64,
    now: u64,
) -> (r: Result<AmplifierParameters, ContractError>)
    ensures
        r == (if already_initialized {
            Err(ContractError::AlreadyInitialized)
        } else if !bps_valid(swap_fee_bps) || !bps_valid(max_allowed_slippage_bps) || !bps_valid(max_allowed_spread_bps)
            || !bps_valid(default_slippage_bps) || !bps_valid(max_allowed_fee_bps) {
            Err(ContractError::InvalidBps)
        } else if swap_fee_bps > max_allowed_fee_bps {
            Err(ContractError::SwapFeeBpsOverLimit)
        } else if !address_lt(token_a, token_b) {
            Err(ContractError::TokenABiggerThanTokenB)
        } else if amp == 0 || amp > MAX_AMP {
            Err(ContractError::InvalidAMP)
        } else {
            Ok(initial_amp_spec(amp, now))
        }),
{
    if already_initialized {
        return Err(ContractError::AlreadyInitialized);
    }
    if !validate_bps(swap_fee_bps) || !validate_bps(max_allowed_slippage_bps) || !validate_bps(max_allowed_spread_bps)
        || !validate_bps(default_slippage_bps) || !validate_bps(max_allowed_fee_bps) {
        return Err(ContractError::InvalidBps);
    }
    // if the swap_fee_bps is above the threshold, we throw an error
    if swap_fee_bps > max_allowed_fee_bps {
        return Err(ContractError::SwapFeeBpsOverLimit);
    }
    // Token order validation to make sure only one instance of a pool can exist
    if !token_a.lt(&token_b) {
        return Err(ContractError::TokenABiggerThanTokenB);
    }
    if amp == 0 || amp > MAX_AMP {
        return Err(ContractError::InvalidAMP);
    }
    let amp_precision = amp * AMP_PRECISION_U64;
    Ok(AmplifierParameters {
        init_amp: amp_precision,
        init_amp_time: now,
        next_amp: amp_precision,
        next_amp_time: now,
    })
}

/// The checks of a deposit made before any token moves.
pub fn check_provide_liquidity(
    now: u64,
    deadline: Option<u64>,
    desired_a: i128,
    desired_b: i128,
    custom_slippage_bps: Option<i64>,
    config: &Config,
) -> (r: Result<(), ContractError>)
    ensures
        r == (if deadline.is_some() && now > deadline.unwrap() {
            Err(ContractError::TransactionAfterTimestampDeadline)
        } else if desired_a <= 0 || desired_b <= 0 {
            Err(ContractError::NegativeInputProvided)
        } else if (match custom_slippage_bps {
            Some(s) => s,
            None => config.default_slippage_bps,
        }) > config.max_allowed_slippage_bps {
            Err(ContractError::ProvideLiquiditySlippageToleranceTooHigh)
        } else {
            Ok(())
        }),
{
    if let Some(deadline) = deadline {
        if now > deadline {
            return Err(ContractError::TransactionAfterTimestampDeadline);
        }
    }
    if desired_a <= 0 || desired_b <= 0 {
        return Err(ContractError::NegativeInputProvided);
    }
    let custom_slippage = match custom_slippage_bps {
        Some(s) => s,
        None => config.default_slippage_bps,
    };
    if custom_slippage > config.max_allowed_slippage_bps {
        return Err(ContractError::ProvideLiquiditySlippageToleranceTooHigh);
    }
    Ok(())
}

/// Shares for the first deposit: `D` at the pool's greatest precision, less
/// the minimum liquidity kept back.
pub open spec fn first_deposit_shares_spec(new_invariant: int, greatest_precision: int) -> Result<int, ContractError> {
    if greatest_precision > DECIMAL_PRECISION || new_invariant > u128::MAX {
        Err(ContractError::ContractMathError)
    } else {
        let q = new_invariant / vstd::arithmetic::power::pow(10, (DECIMAL_PRECISION - greatest_precision) as nat);
        if q < MINIMUM_LIQUIDITY_AMOUNT {
            Err(ContractError::ContractMathError)
        } else if q == MINIMUM_LIQUIDITY_AMOUNT {
            Err(ContractError::LowLiquidity)
        } else {
            Ok(q - MINIMUM_LIQUIDITY_AMOUNT)
        }
    }
}

/// Shares for a later deposit: the total shares times the relative growth of `D`.
pub open spec fn later_deposit_shares_spec(
    amp: int,
    dec_a: int,
    dec_b: int,
    old_a: int,
    old_b: int,
    new_invariant: int,
    total_shares: int,
) -> Result<int, ContractError> {
    if old_a < 0 || old_b < 0 {
        Err(ContractError::ContractMathError)
    } else {
        match (
            scale_spec(old_a, dec_a, DECIMAL_PRECISION as int),
            scale_spec(old_b, dec_b, DECIMAL_PRECISION as int),
        ) {
            (Some(y0), Some(y1)) => match compute_d_spec(amp, y0, y1) {
                Err(e) => Err(e),
                Ok(initial_invariant) => if initial_invariant > u128::MAX || new_invariant > u128::MAX
                    || new_invariant < initial_invariant {
                    Err(ContractError::ContractMathError)
                } else {
                    let delta = new_invariant - initial_invariant;
                    if delta > i128::MAX || initial_invariant > i128::MAX || initial_invariant == 0
                        || !in_i128(ratio_atomics(delta, initial_invariant)) {
                        Err(ContractError::ContractMathError)
                    } else {
                        match mul_decimal_spec(total_shares, ratio_atomics(delta, initial_invariant)) {
                            None => Err(ContractError::ContractMathError),
                            Some(shares) => if shares < 0 {
                                Err(ContractError::ContractMathError)
                            } else {
                                Ok(shares)
                            },
                        }
                    }
                },
            },
            _ => Err(ContractError::ContractMathError),
        }
    }
}

/// The shares a deposit earns, given the pool before it and the amounts the
/// pool's token balances grew by.
pub open spec fn deposit_shares_spec(
    amp: int,
    greatest_precision: int,
    dec_a: int,
    dec_b: int,
    old_a: int,
    old_b: int,
    received_a: int,
    received_b: int,
    total_shares: int,
    min_shares: Option<u128>,
) -> Result<int, ContractError> {
    let new_a = received_a + old_a;
    let new_b = received_b + old_b;
    if !in_i128(new_a) || new_a < 0 || !in_i128(new_b) || new_b < 0 {
        Err(ContractError::ContractMathError)
    } else {
        match (
            scale_spec(new_a, dec_a, DECIMAL_PRECISION as int),
            scale_spec(new_b, dec_b, DECIMAL_PRECISION as int),
        ) {
            (Some(x0), Some(x1)) => match compute_d_spec(amp, x0, x1) {
                Err(e) => Err(e),
                Ok(new_invariant) => {
                    let shares = if total_shares == 0 {
                        first_deposit_shares_spec(new_invariant, greatest_precision)
                    } else {
                        later_deposit_shares_spec(amp, dec_a, dec_b, old_a, old_b, new_invariant, total_shares)
                    };
                    match shares {
                        Err(e) => Err(e),
                        Ok(s) => if min_shares.is_some() && s < min_shares.unwrap() {
                            Err(ContractError::IssuedSharesLessThanUserRequested)
                        } else if s > i128::MAX {
                            Err(ContractError::ContractMathError)
                        } else {
                            Ok(s)
                        },
                    }
                },
            },
            _ => Err(ContractError::ContractMathError),
        }
    }
}

pub open spec fn i128_result(r: Result<i128, ContractError>) -> Result<int, ContractError> {
    match r {
        Ok(v) => Ok(v as int),
        Err(e) => Err(e),
    }
}

fn first_deposit_shares(env: &Env, new_invariant: &crate::wide::Wide, greatest_precision: u32) -> (r: Result<u128, ContractError>)
    ensures
        u128_result(r) == first_deposit_shares_spec(new_invariant.value(), greatest_precision as int),
{
    if greatest_precision > DECIMAL_PRECISION {
        return Err(ContractError::ContractMathError);
    }
    let divisor = super::math::pow10_u128(DECIMAL_PRECISION - greatest_precision);
    let inv = match wide_to_u128(env, new_invariant) {
        Some(v) => v,
        None => return Err(ContractError::ContractMathError),
    };
    let quotient = inv / divisor;
    let share = match quotient.checked_sub(MINIMUM_LIQUIDITY_AMOUNT) {
        Some(v) => v,
        None => return Err(ContractError::ContractMathError),
    };
    if share == 0 {
        return Err(ContractError::LowLiquidity);
    }
    Ok(share)
}

fn later_deposit_shares(
    env: &Env,
    amp: u128,
    token_a_decimals: u32,
    token_b_decimals: u32,
    old_balance_a: i128,
    old_balance_b: i128,
    new_invariant: &crate::wide::Wide,
    total_shares: i128,
) -> (r: Result<u128, ContractError>)
    ensures
        u128_result(r) == later_deposit_shares_spec(
            amp as int,
            token_a_decimals as int,
            token_b_decimals as int,
            old_balance_a as int,
            old_balance_b as int,
            new_invariant.value(),
            total_shares as int,
        ),
{
    if old_balance_a < 0 || old_balance_b < 0 {
        return Err(ContractError::ContractMathError);
    }
    let y0 = scale_value(env, old_balance_a as u128, token_a_decimals, DECIMAL_PRECISION);
    let y1 = scale_value(env, old_balance_b as u128, token_b_decimals, DECIMAL_PRECISION);
    let (y0, y1) = match (y0, y1) {
        (Ok(a), Ok(b)) => (a, b),
        _ => return Err(ContractError::ContractMathError),
    };
    let pools = [y0, y1];
    assert(pools@[0] == y0 && pools@[1] == y1);
    let initial = match compute_d(env, amp, &pools) {
        Ok(v) => v,
        Err(e) => return Err(e),
    };
    let initial_invariant = match wide_to_u128(env, &initial) {
        Some(v) => v,
        None => return Err(ContractError::ContractMathError),
    };
    let new_inv = match wide_to_u128(env, new_invariant) {
        Some(v) => v,
        None => return Err(ContractError::ContractMathError),
    };
    let diff = match new_inv.checked_sub(initial_invariant) {
        Some(v) => v,
        None => return Err(ContractError::ContractMathError),
    };
    if diff > i128::MAX as u128 || initial_invariant > i128::MAX as u128 || initial_invariant == 0 {
        return Err(ContractError::ContractMathError);
    }
    let invariant_delta = diff as i128;
    let initial_i128 = initial_invariant as i128;
    let ratio = match Decimal::checked_from_ratio(invariant_delta, initial_i128) {
        Ok(v) => v,
        Err(_) => return Err(ContractError::ContractMathError),
    };
    let shares = match checked_mul_decimal(total_shares, ratio) {
        Ok(v) => v,
        Err(e) => return Err(e),
    };
    if shares < 0 {
        return Err(ContractError::ContractMathError);
    }
    Ok(shares as u128)
}

/// The LP shares a deposit mints. The deposit is what the pool's token
/// balances grew by across the transfers (`balance_*_after - balance_*_before`);
/// the amplification is the one in force at `block_time`.
pub fn compute_deposit_shares(
    env: &Env,
    amp_params: &AmplifierParameters,
    block_time: u64,
    greatest_precision: u32,
    token_a_decimals: u32,
    token_b_decimals: u32,
    old_balance_a: i128,
    old_balance_b: i128,
    balance_a_before: i128,
    balance_a_after: i128,
    balance_b_before: i128,
    balance_b_after: i128,
    total_shares: i128,
    min_shares_to_receive: Option<u128>,
) -> (r: Result<i128, ContractError>)
    requires
        block_time < amp_params.next_amp_time ==> amp_params.init_amp_time < amp_params.next_amp_time,
    ensures
        !in_i128(balance_a_after - balance_a_before) || !in_i128(balance_b_after - balance_b_before)
            ==> r == Err::<i128, ContractError>(ContractError::ContractMathError),
        in_i128(balance_a_after - balance_a_before) && in_i128(balance_b_after - balance_b_before)
            ==> i128_result(r) == deposit_shares_spec(
            current_amp_spec(block_time, *amp_params),
            greatest_precision as int,
            token_a_decimals as int,
            token_b_decimals as int,
            old_balance_a as int,
            old_balance_b as int,
            balance_a_after - balance_a_before,
            balance_b_after - balance_b_before,
            total_shares as int,
            min_shares_to_receive,
        ),
{
    let amp = compute_current_amp(block_time, amp_params);
    let actual_received_a = match balance_a_after.checked_sub(balance_a_before) {
        Some(v) => v,
        None => return Err(ContractError::ContractMathError),
    };
    let actual_received_b = match balance_b_after.checked_sub(balance_b_before) {
        Some(v) => v,
        None => return Err(ContractError::ContractMathError),
    };
    let new_balance_a = match actual_received_a.checked_add(old_balance_a) {
        Some(v) => v,
        None => return Err(ContractError::ContractMathError),
    };
    let new_balance_b = match actual_received_b.checked_add(old_balance_b) {
        Some(v) => v,
        None => return Err(ContractError::ContractMathError),
    };
    if new_balance_a < 0 || new_balance_b < 0 {
        return Err(ContractError::ContractMathError);
    }
    let x0 = scale_value(env, new_balance_a as u128, token_a_decimals, DECIMAL_PRECISION);
    let x1 = scale_value(env, new_balance_b as u128, token_b_decimals, DECIMAL_PRECISION);
    let (x0, x1) = match (x0, x1) {
        (Ok(a), Ok(b)) => (a, b),
        _ => return Err(ContractError::ContractMathError),
    };
    let pools = [x0, x1];
    assert(pools@[0] == x0 && pools@[1] == x1);
    let new_invariant = match compute_d(env, amp as u128, &pools) {
        Ok(v) => v,
        Err(e) => return Err(e),
    };
    let shares = if total_shares == 0 {
        first_deposit_shares(env, &new_invariant, greatest_precision)
    } else {
        later_deposit_shares(
            env,
            amp as u128,
            token_a_decimals,
            token_b_decimals,
            old_balance_a,
            old_balance_b,
            &new_invariant,
            total_shares,
        )
    };
    let shares = match shares {
        Ok(v) => v,
        Err(e) => return Err(e),
    };
    if let Some(min_shares) = min_shares_to_receive {
        if shares < min_shares {
            return Err(ContractError::IssuedSharesLessThanUserRequested);
        }
    }
    if shares > i128::MAX as u128 {
        return Err(ContractError::ContractMathError);
    }
    Ok(shares as i128)
}

/// The checks of a swap made before any token moves.
pub fn check_swap(now: u64, deadline: Option<u64>, offer_amount: i128) -> (r: Result<(), ContractError>)
    ensures
        r == (if deadline.is_some() && now > deadline.unwrap() {
            Err(ContractError::TransactionAfterTimestampDeadline)
        } else if offer_amount <= 0 {
            Err(ContractError::NegativeInputProvided)
        } else {
            Ok(())
        }),
{
    if let Some(deadline) = deadline {
        if now > deadline {
            return Err(ContractError::TransactionAfterTimestampDeadline);
        }
    }
    if offer_amount <= 0 {
        return Err(ContractError::NegativeInputProvided);
    }
    Ok(())
}

/// What a swap hands out: which token is sold, the amount bought after
/// commission, the spread and the commission.
#[derive(Clone, Copy, Debug, PartialEq, Eq, Structural)]
pub struct SwapPlan {
    pub offer_is_a: bool,
    pub return_amount: i128,
    pub spread_amount: i128,
    pub commission_amount: i128,
}

pub open spec fn swap_checks_spec(
    config: Config,
    offer_asset: AddressKey,
    max_spread_bps: Option<i64>,
    max_allowed_fee_bps: Option<i64>,
) -> Option<ContractError> {
    if max_allowed_fee_bps.is_some() && max_allowed_fee_bps.unwrap() < config.total_fee_bps {
        Some(ContractError::UserDeclinesPoolFee)
    } else if offer_asset != config.token_a && offer_asset != config.token_b {
        Some(ContractError::IncorrectAssetSwap)
    } else if max_spread_bps.is_some() && !(0 <= max_spread_bps.unwrap() <= config.max_allowed_spread_bps) {
        Some(ContractError::InvalidBps)
    } else {
        None
    }
}

/// The outcome of a swap, given the pool's state.
pub open spec fn plan_swap_spec(
    config: Config,
    offer_asset: AddressKey,
    offer_amount: int,
    ask_asset_min_amount: Option<i128>,
    max_spread_bps: Option<i64>,
    max_allowed_fee_bps: Option<i64>,
    pool_a: int,
    pool_b: int,
    precision_a: int,
    precision_b: int,
    amp: int,
    greatest_precision: int,
) -> Result<(bool, int, int, int), ContractError> {
    match swap_checks_spec(config, offer_asset, max_spread_bps, max_allowed_fee_bps) {
        Some(e) => Err(e),
        None => {
            let offer_is_a = offer_asset == config.token_a;
            let sell_pool = if offer_is_a { pool_a } else { pool_b };
            let buy_pool = if offer_is_a { pool_b } else { pool_a };
            let sell_precision = if offer_is_a { precision_a } else { precision_b };
            let buy_precision = if offer_is_a { precision_b } else { precision_a };
            let max_spread = (match max_spread_bps {
                Some(m) => m,
                None => config.max_allowed_spread_bps,
            }) as int * 100_000_000_000_000;
            if sell_pool < 0 || buy_pool < 0 || offer_amount < 0 {
                Err(ContractError::ContractMathError)
            } else {
                match compute_swap_spec(
                    amp,
                    greatest_precision,
                    sell_pool,
                    sell_precision,
                    buy_pool,
                    buy_precision,
                    offer_amount,
                    config.total_fee_bps as int * 100_000_000_000_000,
                ) {
                    Err(e) => Err(e),
                    Ok((ret, spread, commission)) => if ask_asset_min_amount.is_some() && ask_asset_min_amount.unwrap() > ret {
                        Err(ContractError::SwapMinReceivedBiggerThanReturn)
                    } else if !in_i128(ret + commission) || ret + commission == 0 || !in_i128(ratio_atomics(spread, ret + commission)) {
                        Err(ContractError::ContractMathError)
                    } else if ratio_atomics(spread, ret + commission) > max_spread {
                        Err(ContractError::SpreadExceedsLimit)
                    } else {
                        Ok((offer_is_a, ret, spread, commission))
                    },
                }
            }
        },
    }
}

pub open spec fn plan_result(r: Result<SwapPlan, ContractError>) -> Result<(bool, int, int, int), ContractError> {
    match r {
        Ok(p) => Ok((p.offer_is_a, p.return_amount as int, p.spread_amount as int, p.commission_amount as int)),
        Err(e) => Err(e),
    }
}

/// The decisions of `swap`: which checks refuse it, and what it hands out.
/// `precision_a`/`precision_b` are the tokens' stored precisions.
pub fn plan_swap(
    env: &Env,
    config: &Config,
    offer_asset: AddressKey,
    offer_amount: i128,
    ask_asset_min_amount: Option<i128>,
    max_spread_bps: Option<i64>,
    max_allowed_fee_bps: Option<i64>,
    pool_balance_a: i128,
    pool_balance_b: i128,
    precision_a: u32,
    precision_b: u32,
    amp_params: &AmplifierParameters,
    block_time: u64,
    greatest_precision: u32,
) -> (r: Result<SwapPlan, ContractError>)
    requires
        block_time < amp_params.next_amp_time ==> amp_params.init_amp_time < amp_params.next_amp_time,
    ensures
        plan_result(r) == plan_swap_spec(
            *config,
            offer_asset,
            offer_amount as int,
            ask_asset_min_amount,
            max_spread_bps,
            max_allowed_fee_bps,
            pool_balance_a as int,
            pool_balance_b as int,
            precision_a as int,
            precision_b as int,
            current_amp_spec(block_time, *amp_params),
            greatest_precision as int,
        ),
{
    if let Some(agreed_percentage) = max_allowed_fee_bps {
        if agreed_percentage < config.total_fee_bps {
            return Err(ContractError::UserDeclinesPoolFee);
        }
    }
    if !offer_asset.same(&config.token_a) && !offer_asset.same(&config.token_b) {
        return Err(ContractError::IncorrectAssetSwap);
    }
    if let Some(max_spread) = max_spread_bps {
        if !(0 <= max_spread && max_spread <= config.max_allowed_spread_bps) {
            return Err(ContractError::InvalidBps);
        }
    }
    let max_spread = Decimal::bps(
        match max_spread_bps {
            Some(m) => m,
            None => config.max_allowed_spread_bps,
        },
    );
    let offer_is_a = offer_asset.same(&config.token_a);
    let (pool_sell, pool_buy, sell_precision, buy_precision) = if offer_is_a {
        (pool_balance_a, pool_balance_b, precision_a, precision_b)
    } else {
        (pool_balance_b, pool_balance_a, precision_b, precision_a)
    };
    if pool_sell < 0 || pool_buy < 0 || offer_amount < 0 {
        return Err(ContractError::ContractMathError);
    }
    let (return_amount, spread_amount, commission_amount) = match compute_swap(
        env,
        amp_params,
        block_time,
        greatest_precision,
        pool_sell as u128,
        sell_precision,
        pool_buy as u128,
        buy_precision,
        offer_amount as u128,
        config.protocol_fee_rate(),
    ) {
        Ok(v) => v,
        Err(e) => return Err(e),
    };
    if let Some(ask_asset_min_amount) = ask_asset_min_amount {
        if ask_asset_min_amount > return_amount {
            return Err(ContractError::SwapMinReceivedBiggerThanReturn);
        }
    }
    let return_amount_result = match return_amount.checked_add(commission_amount) {
        Some(v) => v,
        None => return Err(ContractError::ContractMathError),
    };
    match assert_max_spread(max_spread, return_amount_result, spread_amount) {
        Ok(()) => {},
        Err(e) => return Err(e),
    }
    Ok(SwapPlan { offer_is_a, return_amount, spread_amount, commission_amount })
}

/// The pool's balances after a swap: the sold side grows by what the pool
/// actually received, the bought side shrinks by the return and commission.
pub fn swap_new_balances(
    offer_is_a: bool,
    pool_balance_a: i128,
    pool_balance_b: i128,
    actual_received_amount: i128,
    commission_amount: i128,
    return_amount: i128,
) -> (r: Result<(i128, i128), ContractError>)
    ensures
        offer_is_a ==> (if in_i128(pool_balance_a + actual_received_amount) && in_i128(pool_balance_b - commission_amount)
            && in_i128(pool_balance_b - commission_amount - return_amount) {
            r == Ok::<(i128, i128), ContractError>(
                ((pool_balance_a + actual_received_amount) as i128, (pool_balance_b - commission_amount - return_amount) as i128),
            )
        } else {
            r == Err::<(i128, i128), ContractError>(ContractError::ContractMathError)
        }),
        !offer_is_a ==> (if in_i128(pool_balance_a - commission_amount) && in_i128(pool_balance_a - commission_amount - return_amount)
            && in_i128(pool_balance_b + actual_received_amount) {
            r == Ok::<(i128, i128), ContractError>(
                ((pool_balance_a - commission_amount - return_amount) as i128, (pool_balance_b + actual_received_amount) as i128),
            )
        } else {
            r == Err::<(i128, i128), ContractError>(ContractError::ContractMathError)
        }),
{
    if offer_is_a {
        let a = match pool_balance_a.checked_add(actual_received_amount) {
            Some(v) => v,
            None => return Err(ContractError::ContractMathError),
        };
        let b1 = match pool_balance_b.checked_sub(commission_amount) {
            Some(v) => v,
            None => return Err(ContractError::ContractMathError),
        };
        let b = match b1.checked_sub(return_amount) {
            Some(v) => v,
            None => return Err(ContractError::ContractMathError),
        };
        Ok((a, b))
    } else {
        let a1 = match pool_balance_a.checked_sub(commission_amount) {
            Some(v) => v,
            None => return Err(ContractError::ContractMathError),
        };
        let a = match a1.checked_sub(return_amount) {
            Some(v) => v,
            None => return Err(ContractError::ContractMathError),
        };
        let b = match pool_balance_b.checked_add(actual_received_amount) {
            Some(v) => v,
            None => return Err(ContractError::ContractMathError),
        };
        Ok((a, b))
    }
}

/// The checks of a withdrawal made before any token moves.
pub fn check_withdraw_liquidity(now: u64, deadline: Option<u64>, share_amount: i128, min_a: i128, min_b: i128) -> (r: Result<(), ContractError>)
    ensures
        r == (if deadline.is_some() && now > deadline.unwrap() {
            Err(ContractError::TransactionAfterTimestampDeadline)
        } else if share_amount <= 0 || min_a <= 0 || min_b <= 0 {
            Err(ContractError::NegativeInputProvided)
        } else {
            Ok(())
        }),
{
    if let Some(deadline) = deadline {
        if now > deadline {
            return Err(ContractError::TransactionAfterTimestampDeadline);
        }
    }
    if share_amount <= 0 || min_a <= 0 || min_b <= 0 {
        return Err(ContractError::NegativeInputProvided);
    }
    Ok(())
}

/// What a withdrawal pays out and leaves behind.
#[derive(Clone, Copy, Debug, PartialEq, Eq, Structural)]
pub struct WithdrawPlan {
    pub return_amount_a: i128,
    pub return_amount_b: i128,
    pub new_total_shares: i128,
    pub new_balance_a: i128,
    pub new_balance_b: i128,
}

pub open spec fn withdraw_spec(pool_a: int, pool_b: int, total_shares: int, share_amount: int, min_a: int, min_b: int) -> Result<(int, int, int, int, int), ContractError> {
    if total_shares == 0 {
        Err(ContractError::TotalSharesEqualZero)
    } else if !in_i128(ratio_atomics(share_amount, total_shares)) {
        Err(ContractError::ContractMathError)
    } else {
        let ratio = ratio_atomics(share_amount, total_shares);
        match (mul_decimal_spec(pool_a, ratio), mul_decimal_spec(pool_b, ratio)) {
            (Some(ret_a), Some(ret_b)) => if ret_a < min_a || ret_b < min_b {
                Err(ContractError::WithdrawLiquidityMinimumAmountOfAOrBIsNotSatisfied)
            } else if !in_i128(total_shares - share_amount) || !in_i128(pool_a - ret_a) || !in_i128(pool_b - ret_b) {
                Err(ContractError::ContractMathError)
            } else {
                Ok((ret_a, ret_b, total_shares - share_amount, pool_a - ret_a, pool_b - ret_b))
            },
            _ => Err(ContractError::ContractMathError),
        }
    }
}

pub open spec fn withdraw_result(r: Result<WithdrawPlan, ContractError>) -> Result<(int, int, int, int, int), ContractError> {
    match r {
        Ok(p) => Ok((
            p.return_amount_a as int,
            p.return_amount_b as int,
            p.new_total_shares as int,
            p.new_balance_a as int,
            p.new_balance_b as int,
        )),
        Err(e) => Err(e),
    }
}

/// The payout of withdrawing `share_amount` LP shares: each pool balance times
/// `share_amount / total_shares`.
pub fn plan_withdraw_liquidity(
    pool_balance_a: i128,
    pool_balance_b: i128,
    total_shares: i128,
    share_amount: i128,
    min_a: i128,
    min_b: i128,
) -> (r: Result<WithdrawPlan, ContractError>)
    ensures
        withdraw_result(r) == withdraw_spec(
            pool_balance_a as int,
            pool_balance_b as int,
            total_shares as int,
            share_amount as int,
            min_a as int,
            min_b as int,
        ),
{
    if total_shares == 0 {
        return Err(ContractError::TotalSharesEqualZero);
    }
    let share_ratio = match Decimal::checked_from_ratio(share_amount, total_shares) {
        Ok(v) => v,
        Err(_) => return Err(ContractError::ContractMathError),
    };
    let return_amount_a = checked_mul_decimal(pool_balance_a, share_ratio);
    let return_amount_b = checked_mul_decimal(pool_balance_b, share_ratio);
    let (return_amount_a, return_amount_b) = match (return_amount_a, return_amount_b) {
        (Ok(a), Ok(b)) => (a, b),
        _ => return Err(ContractError::ContractMathError),
    };
    if return_amount_a < min_a || return_amount_b < min_b {
        return Err(ContractError::WithdrawLiquidityMinimumAmountOfAOrBIsNotSatisfied);
    }
    let new_total_shares = match total_shares.checked_sub(share_amount) {
        Some(v) => v,
        None => return Err(ContractError::ContractMathError),
    };
    let new_balance_a = match pool_balance_a.checked_sub(return_amount_a) {
        Some(v) => v,
        None => return Err(ContractError::ContractMathError),
    };
    let new_balance_b = match pool_balance_b.checked_sub(return_amount_b) {
        Some(v) => v,
        None => return Err(ContractError::ContractMathError),
    };
    Ok(WithdrawPlan { return_amount_a, return_amount_b, new_total_shares, new_balance_a, new_balance_b })
}

/// The configuration and the admin after the admin's update; the sender must
/// be the admin and each new basis-point value must be valid. A given
/// `new_admin` takes over the pool.
pub fn update_config(
    config: &Config,
    sender: AddressKey,
    admin: AddressKey,
    new_admin: Option<AddressKey>,
    total_fee_bps: Option<i64>,
    fee_recipient: Option<AddressKey>,
    max_allowed_slippage_bps: Option<i64>,
    max_allowed_spread_bps: Option<i64>,
) -> (r: Result<(Config, AddressKey), ContractError>)
    ensures
        r == (if sender != admin {
            Err(ContractError::Unauthorized)
        } else if (total_fee_bps.is_some() && !bps_valid(total_fee_bps.unwrap()))
            || (max_allowed_slippage_bps.is_some() && !bps_valid(max_allowed_slippage_bps.unwrap()))
            || (max_allowed_spread_bps.is_some() && !bps_valid(max_allowed_spread_bps.unwrap())) {
            Err(ContractError::InvalidBps)
        } else {
            Ok((
                Config {
                    total_fee_bps: match total_fee_bps { Some(v) => v, None => config.total_fee_bps },
                    fee_recipient: match fee_recipient { Some(v) => v, None => config.fee_recipient },
                    max_allowed_slippage_bps: match max_allowed_slippage_bps { Some(v) => v, None => config.max_allowed_slippage_bps },
                    max_allowed_spread_bps: match max_allowed_spread_bps { Some(v) => v, None => config.max_allowed_spread_bps },
                    ..*config
                },
                match new_admin { Some(a) => a, None => admin },
            ))
        }),
{
    if !sender.same(&admin) {
        return Err(ContractError::Unauthorized);
    }
    let mut new_config = *config;
    if let Some(total_fee_bps) = total_fee_bps {
        if !validate_bps(total_fee_bps) {
            return Err(ContractError::InvalidBps);
        }
        new_config.total_fee_bps = total_fee_bps;
    }
    if let Some(fee_recipient) = fee_recipient {
        new_config.fee_recipient = fee_recipient;
    }
    if let Some(max_allowed_slippage_bps) = max_allowed_slippage_bps {
        if !validate_bps(max_allowed_slippage_bps) {
            return Err(ContractError::InvalidBps);
        }
        new_config.max_allowed_slippage_bps = max_allowed_slippage_bps;
    }
    if let Some(max_allowed_spread_bps) = max_allowed_spread_bps {
        if !validate_bps(max_allowed_spread_bps) {
            return Err(ContractError::InvalidBps);
        }
        new_config.max_allowed_spread_bps = max_allowed_spread_bps;
    }
    let next_admin = match new_admin {
        Some(a) => a,
        None => admin,
    };
    Ok((new_config, next_admin))
}

/// The part of each pool balance that `amount` of `total_share` LP shares
/// stand for; nothing when there are no shares.
pub open spec fn share_spec(amount: int, total_share: int, pool_a: int, pool_b: int) -> Result<(int, int), ContractError> {
    let ratio = if total_share != 0 { ratio_atomics(amount, total_share) } else { 0 };
    if total_share != 0 && !in_i128(ratio_atomics(amount, total_share)) {
        Err(ContractError::ContractMathError)
    } else {
        match (mul_decimal_spec(pool_a, ratio), mul_decimal_spec(pool_b, ratio)) {
            (Some(a), Some(b)) => Ok((a, b)),
            _ => Err(ContractError::ContractMathError),
        }
    }
}

/// The part of each pool balance that `amount` LP shares stand for.
pub fn query_share(amount: i128, total_share: i128, pool_balance_a: i128, pool_balance_b: i128) -> (r: Result<(i128, i128), ContractError>)
    ensures
        match share_spec(amount as int, total_share as int, pool_balance_a as int, pool_balance_b as int) {
            Ok((a, b)) => r == Ok::<(i128, i128), ContractError>((a as i128, b as i128)),
            Err(e) => r == Err::<(i128, i128), ContractError>(e),
        },
{
    let mut share_ratio = Decimal::zero();
    if total_share != 0 {
        share_ratio = match Decimal::checked_from_ratio(amount, total_share) {
            Ok(v) => v,
            Err(_) => return Err(ContractError::ContractMathError),
        };
    }
    let amount_a = checked_mul_decimal(pool_balance_a, share_ratio);
    let amount_b = checked_mul_decimal(pool_balance_b, share_ratio);
    match (amount_a, amount_b) {
        (Ok(a), Ok(b)) => Ok((a, b)),
        _ => Err(ContractError::ContractMathError),
    }
}

/// A swap simulated on the pool's state, with the total that it adds up to.
pub fn simulate_swap(
    env: &Env,
    config: &Config,
    offer_asset: AddressKey,
    offer_amount: i128,
    pool_balance_a: i128,
    pool_balance_b: i128,
    precision_a: u32,
    precision_b: u32,
    amp_params: &AmplifierParameters,
    block_time: u64,
    greatest_precision: u32,
) -> (r: Result<SimulateSwapResponse, ContractError>)
    requires
        block_time < amp_params.next_amp_time ==> amp_params.init_amp_time < amp_params.next_amp_time,
    ensures
        offer_asset != config.token_a && offer_asset != config.token_b
            ==> r == Err::<SimulateSwapResponse, ContractError>(ContractError::AssetNotInPool),
        offer_asset == config.token_a || offer_asset == config.token_b ==> ({
            let offer_is_a = offer_asset == config.token_a;
            let sell_pool = if offer_is_a { pool_balance_a } else { pool_balance_b };
            let buy_pool = if offer_is_a { pool_balance_b } else { pool_balance_a };
            if sell_pool < 0 || buy_pool < 0 || offer_amount < 0 {
                r == Err::<SimulateSwapResponse, ContractError>(ContractError::ContractMathError)
            } else {
                match compute_swap_spec(
                    current_amp_spec(block_time, *amp_params),
                    greatest_precision as int,
                    sell_pool as int,
                    (if offer_is_a { precision_a } else { precision_b }) as int,
                    buy_pool as int,
                    (if offer_is_a { precision_b } else { precision_a }) as int,
                    offer_amount as int,
                    config.total_fee_bps as int * 100_000_000_000_000,
                ) {
                    Err(e) => r == Err::<SimulateSwapResponse, ContractError>(e),
                    Ok((ask, spread, commission)) => if in_i128(ask + commission) && in_i128(ask + commission + spread) {
                        r == Ok::<SimulateSwapResponse, ContractError>(SimulateSwapResponse {
                            ask_amount: ask as i128,
                            commission_amount: commission as i128,
                            spread_amount: spread as i128,
                            total_return: (ask + commission + spread) as i128,
                        })
                    } else {
                        r == Err::<SimulateSwapResponse, ContractError>(ContractError::ContractMathError)
                    },
                }
            }
        }),
{
    let offer_is_a = offer_asset.same(&config.token_a);
    if !offer_is_a && !offer_asset.same(&config.token_b) {
        return Err(ContractError::AssetNotInPool);
    }
    let (pool_sell, pool_buy, sell_precision, buy_precision) = if offer_is_a {
        (pool_balance_a, pool_balance_b, precision_a, precision_b)
    } else {
        (pool_balance_b, pool_balance_a, precision_b, precision_a)
    };
    if pool_sell < 0 || pool_buy < 0 || offer_amount < 0 {
        return Err(ContractError::ContractMathError);
    }
    let (ask_amount, spread_amount, commission_amount) = match compute_swap(
        env,
        amp_params,
        block_time,
        greatest_precision,
        pool_sell as u128,
        sell_precision,
        pool_buy as u128,
        buy_precision,
        offer_amount as u128,
        config.protocol_fee_rate(),
    ) {
        Ok(v) => v,
        Err(e) => return Err(e),
    };
    let with_commission = match ask_amount.checked_add(commission_amount) {
        Some(v) => v,
        None => return Err(ContractError::ContractMathError),
    };
    let total_return = match with_commission.checked_add(spread_amount) {
        Some(v) => v,
        None => return Err(ContractError::ContractMathError),
    };
    Ok(SimulateSwapResponse { ask_amount, commission_amount, spread_amount, total_return })
}

/// A reverse swap simulated on the pool's state: what must be offered to buy
/// `ask_amount` of the other token.
pub fn simulate_reverse_swap(
    env: &Env,
    config: &Config,
    offer_asset: AddressKey,
    ask_amount: i128,
    pool_balance_a: i128,
    pool_balance_b: i128,
    precision_a: u32,
    precision_b: u32,
    amp_params: &AmplifierParameters,
    block_time: u64,
    greatest_precision: u32,
) -> (r: Result<SimulateReverseSwapResponse, ContractError>)
    requires
        block_time < amp_params.next_amp_time ==> amp_params.init_amp_time < amp_params.next_amp_time,
    ensures
        offer_asset != config.token_a && offer_asset != config.token_b
            ==> r == Err::<SimulateReverseSwapResponse, ContractError>(ContractError::AssetNotInPool),
        offer_asset == config.token_a || offer_asset == config.token_b ==> ({
            let offer_is_a = offer_asset == config.token_a;
            let sell_pool = if offer_is_a { pool_balance_a } else { pool_balance_b };
            let buy_pool = if offer_is_a { pool_balance_b } else { pool_balance_a };
            if sell_pool < 0 || buy_pool < 0 || ask_amount < 0 {
                r == Err::<SimulateReverseSwapResponse, ContractError>(ContractError::ContractMathError)
            } else {
                match compute_offer_amount_spec(
                    current_amp_spec(block_time, *amp_params),
                    greatest_precision as int,
                    sell_pool as int,
                    (if offer_is_a { precision_a } else { precision_b }) as int,
                    buy_pool as int,
                    (if offer_is_a { precision_b } else { precision_a }) as int,
                    ask_amount as int,
                    config.total_fee_bps as int * 100_000_000_000_000,
                ) {
                    Err(e) => r == Err::<SimulateReverseSwapResponse, ContractError>(e),
                    Ok((offer, spread, commission)) => r == Ok::<SimulateReverseSwapResponse, ContractError>(
                        SimulateReverseSwapResponse {
                            offer_amount: offer as i128,
                            commission_amount: commission as i128,
                            spread_amount: spread as i128,
                        },
                    ),
                }
            }
        }),
{
    let offer_is_a = offer_asset.same(&config.token_a);
    if !offer_is_a && !offer_asset.same(&config.token_b) {
        return Err(ContractError::AssetNotInPool);
    }
    let (pool_sell, pool_buy, sell_precision, buy_precision) = if offer_is_a {
        (pool_balance_a, pool_balance_b, precision_a, precision_b)
    } else {
        (pool_balance_b, pool_balance_a, precision_b, precision_a)
    };
    if pool_sell < 0 || pool_buy < 0 || ask_amount < 0 {
        return Err(ContractError::ContractMathError);
    }
    let (offer_amount, spread_amount, commission_amount) = match compute_offer_amount(
        env,
        amp_params,
        block_time,
        greatest_precision,
        pool_sell as u128,
        sell_precision,
        pool_buy as u128,
        buy_precision,
        ask_amount as u128,
        config.protocol_fee_rate(),
    ) {
        Ok(v) => v,
        Err(e) => return Err(e),
    };
    Ok(SimulateReverseSwapResponse { offer_amount, commission_amount, spread_amount })
}

/// The error the contract reports for a refused admin hand-over step.
pub fn admin_error(e: AdminChangeError) -> (r: ContractError)
    ensures
        r == match e {
            AdminChangeError::SameAdmin => ContractError::SameAdmin,
            AdminChangeError::NoAdminChangeInPlace => ContractError::NoAdminChangeInPlace,
            AdminChangeError::AdminChangeExpired => ContractError::AdminChangeExpired,
        },
{
    match e {
        AdminChangeError::SameAdmin => ContractError::SameAdmin,
        AdminChangeError::NoAdminChangeInPlace => ContractError::NoAdminChangeInPlace,
        AdminChangeError::AdminChangeExpired => ContractError::AdminChangeExpired,
    }
}

} // verus!

//! Stable-swap arithmetic: the amplification ramp, the invariant `D` found by
//! Newton's method, and the balance `y` that keeps `D` after a trade.
use soroban_sdk::Env;
use vstd::prelude::*;

use super::error::ContractError;
use super::storage::AmplifierParameters;
use super::DECIMAL_PRECISION;
use crate::wide::{
    fits, wide_checked_add, wide_checked_mul, wide_checked_sub, wide_div, wide_from_u128, wide_le, wide_lt,
    wide_mul, wide_pow, wide_sub, wide_to_u128, Wide,
};

verus! {

pub const MAX_AMP_CHANGE: u64 = 10;

pub const MIN_AMP_CHANGING_TIME: u64 = 86400;

/// The amplification coefficient is stored multiplied by this.
pub const AMP_PRECISION: u64 = 100;

/// The maximum number of Newton steps.
pub const ITERATIONS: u8 = 64;

/// Number of coins in a pool.
pub const N_COINS: u128 = 2;

/// `N_COINS` with 18 decimal digits.
pub const N_COINS_PRECISION: u128 = 2000000000000000000;

/// 10^18.
pub const DECIMAL_FRACTIONAL: u128 = 1_000_000_000_000_000_000;

/// Newton's method stops once two iterates differ by at most this.
pub const TOL: u128 = 1000000000000;

pub open spec fn abs_diff_spec(a: int, b: int) -> int {
    if a < b {
        b - a
    } else {
        a - b
    }
}

/// `atomics` moved from `decimal_places` to `target_decimal_places` digits,
/// or `None` where the host arithmetic traps or the result exceeds `u128`.
pub open spec fn scale_spec(atomics: int, decimal_places: int, target_decimal_places: int) -> Option<int> {
    if decimal_places < target_decimal_places {
        let factor = vstd::arithmetic::power::pow(10, (target_decimal_places - decimal_places) as nat);
        if !fits(factor) || !fits(atomics * factor) || atomics * factor > u128::MAX {
            None
        } else {
            Some(atomics * factor)
        }
    } else {
        let factor = vstd::arithmetic::power::pow(10, (decimal_places - target_decimal_places) as nat);
        if !fits(factor) {
            None
        } else {
            Some(atomics / factor)
        }
    }
}

/// The amplification coefficient at `block_time`: linear interpolation from
/// `init_amp` to `next_amp` between their times, `next_amp` afterwards.
pub open spec fn current_amp_spec(block_time: u64, p: AmplifierParameters) -> int {
    if block_time < p.next_amp_time {
        let elapsed: int = if block_time >= p.init_amp_time { block_time - p.init_amp_time } else { 0 };
        let time_range: int = p.next_amp_time - p.init_amp_time;
        if p.next_amp > p.init_amp {
            p.init_amp + (p.next_amp - p.init_amp) * elapsed / time_range
        } else {
            p.init_amp - (p.init_amp - p.next_amp) * elapsed / time_range
        }
    } else {
        p.next_amp as int
    }
}

/// One Newton step for `D`:
/// `(leverage * sum_x + d_product * 2) * d / (d * (leverage - 1) + d_product * 3)`,
/// or `None` where a host operation traps.
pub open spec fn step_spec(d: int, leverage: int, sum_x: int, d_product: int) -> Option<int> {
    let lm = leverage * sum_x;
    let dp2 = d_product * 2;
    let l = (lm + dp2) * d;
    let ls = d * (leverage - 1);
    let nc = d_product * 3;
    let r = ls + nc;
    if !fits(lm) || !fits(dp2) || !fits(lm + dp2) || !fits(l) || leverage < 1 || !fits(ls) || !fits(nc)
        || !fits(r) || r == 0 {
        None
    } else {
        Some(l / r)
    }
}

/// At most `n` Newton steps for `D` from `d`.
pub open spec fn d_newton(n: nat, d: int, leverage: int, sum_x: int, ab: int) -> Result<int, ContractError>
    decreases n,
{
    if n == 0 {
        Err(ContractError::NewtonMethodFailed)
    } else if !fits(d * d) || !fits(d * d * d) || ab == 0 {
        Err(ContractError::ContractMathError)
    } else {
        match step_spec(d, leverage, sum_x, (d * d * d) / ab) {
            None => Err(ContractError::ContractMathError),
            Some(next) => if abs_diff_spec(next, d) <= TOL {
                Ok(next)
            } else {
                d_newton((n - 1) as nat, next, leverage, sum_x, ab)
            },
        }
    }
}

/// The `D` invariant that `compute_d` finds for balances `x0`, `x1`.
pub open spec fn compute_d_spec(amp: int, x0: int, x1: int) -> Result<int, ContractError> {
    let leverage = (amp / AMP_PRECISION as int) * N_COINS_PRECISION as int;
    if leverage > u128::MAX || x0 + x1 > u128::MAX {
        Err(ContractError::ContractMathError)
    } else if x0 + x1 == 0 {
        Ok(0)
    } else if !fits((x0 * 2) * (x1 * 2)) {
        Err(ContractError::ContractMathError)
    } else {
        d_newton(ITERATIONS as nat, x0 + x1, leverage, x0 + x1, (x0 * 2) * (x1 * 2))
    }
}

/// At most `n` steps of `y = (y^2 + c) / (2y + b - d)` from `y`.
pub open spec fn y_newton(n: nat, y: int, c: int, b: int, d: int) -> Result<int, ContractError>
    decreases n,
{
    if n == 0 {
        Err(ContractError::CalcYErr)
    } else if !fits(y * y) || !fits(y * y + c) || !fits(2 * y) || !fits(2 * y + b) || 2 * y + b < d || 2 * y
        + b - d == 0 {
        Err(ContractError::ContractMathError)
    } else {
        let next = (y * y + c) / (2 * y + b - d);
        if abs_diff_spec(next, y) <= TOL {
            Ok(next)
        } else {
            y_newton((n - 1) as nat, next, c, b, d)
        }
    }
}

/// A converged `y` scaled down from 18 digits to `target_precision` digits.
pub open spec fn finish_y(r: Result<int, ContractError>, target_precision: int) -> Result<int, ContractError> {
    match r {
        Err(e) => Err(e),
        Ok(y) => if target_precision > DECIMAL_PRECISION || y > u128::MAX {
            Err(ContractError::ContractMathError)
        } else {
            Ok(y / vstd::arithmetic::power::pow(10, (DECIMAL_PRECISION - target_precision) as nat))
        },
    }
}

/// `100 * 10^18`.
pub open spec fn amp_precision_factor() -> int {
    100_000_000_000_000_000_000
}

/// The new balance of the other coin, at `target_precision` digits, when one
/// balance becomes `new_amount` (18 digits) and `D` is kept.
pub open spec fn calc_y_spec(amp: int, new_amount: int, x0: int, x1: int, target_precision: int) -> Result<int, ContractError> {
    match compute_d_spec(amp, x0, x1) {
        Err(e) => Err(e),
        Ok(d) => {
            let leverage = amp * DECIMAL_FRACTIONAL as int * 2;
            let denominator = 4 * new_amount;
            let t2 = (d * d / denominator) * d;
            let t3 = t2 * amp_precision_factor();
            let scaled_d = d * amp_precision_factor();
            if !fits(d * d) || denominator == 0 || !fits(t2) || !fits(t3) || leverage == 0 || !fits(scaled_d)
                || !fits(new_amount + scaled_d / leverage) {
                Err(ContractError::ContractMathError)
            } else {
                let c = t3 / leverage;
                let b = new_amount + scaled_d / leverage;
                finish_y(y_newton(ITERATIONS as nat, d, c, b, d), target_precision)
            }
        },
    }
}

pub open spec fn wide_result(r: Result<Wide, ContractError>) -> Result<int, ContractError> {
    match r {
        Ok(w) => Ok(w.value()),
        Err(e) => Err(e),
    }
}

pub open spec fn u128_result(r: Result<u128, ContractError>) -> Result<int, ContractError> {
    match r {
        Ok(v) => Ok(v as int),
        Err(e) => Err(e),
    }
}

proof fn lemma_pow10_77()
    ensures
        vstd::arithmetic::power::pow(10, 77) == 100000000000000000000000000000000000000000000000000000000000000000000000000000int,
{
    reveal_with_fuel(vstd::arithmetic::power::pow, 78);
}

proof fn lemma_pow10_fits(k: nat)
    ensures
        fits(vstd::arithmetic::power::pow(10, k)) <==> k <= 77,
        vstd::arithmetic::power::pow(10, k) > 0,
{
    vstd::arithmetic::power::lemma_pow_positive(10, k);
    lemma_pow10_77();
    vstd::arithmetic::power::lemma_pow_adds(10, 77, 1);
    vstd::arithmetic::power::lemma_pow1(10);
    if k <= 77 {
        if k < 77 {
            vstd::arithmetic::power::lemma_pow_strictly_increases(10, k, 77);
        }
    } else {
        if k > 78 {
            vstd::arithmetic::power::lemma_pow_strictly_increases(10, 78, k);
        }
    }
}

/// `atomics` rescaled from `decimal_places` to `target_decimal_places` digits,
/// through the host's 256-bit arithmetic; arithmetic the host traps on, and a
/// result above `u128::MAX`, give `ContractMathError`.
pub fn scale_value(
    env: &Env,
    atomics: u128,
    decimal_places: u32,
    target_decimal_places: u32,
) -> (r: Result<u128, ContractError>)
    ensures
        match scale_spec(atomics as int, decimal_places as int, target_decimal_places as int) {
            Some(v) => 0 <= v <= u128::MAX && r == Ok::<u128, ContractError>(v as u128),
            None => r == Err::<u128, ContractError>(ContractError::ContractMathError),
        },
{
    let ten = wide_from_u128(env, 10);
    let atomics_w = wide_from_u128(env, atomics);
    if decimal_places < target_decimal_places {
        let power = target_decimal_places - decimal_places;
        proof {
            lemma_pow10_fits(power as nat);
        }
        if power > 77 {
            return Err(ContractError::ContractMathError);
        }
        let factor = wide_pow(env, &ten, power);
        let scaled = match wide_checked_mul(env, &atomics_w, &factor) {
            Some(v) => v,
            None => return Err(ContractError::ContractMathError),
        };
        match wide_to_u128(env, &scaled) {
            Some(v) => Ok(v),
            None => Err(ContractError::ContractMathError),
        }
    } else {
        let power = decimal_places - target_decimal_places;
        proof {
            lemma_pow10_fits(power as nat);
        }
        if power > 77 {
            return Err(ContractError::ContractMathError);
        }
        let factor = wide_pow(env, &ten, power);
        let scaled = wide_div(env, &atomics_w, &factor);
        proof {
            vstd::arithmetic::div_mod::lemma_div_is_ordered_by_denominator(atomics as int, 1, factor.value());
            vstd::arithmetic::div_mod::lemma_div_pos_is_pos(atomics as int, factor.value());
        }
        match wide_to_u128(env, &scaled) {
            Some(v) => Ok(v),
            None => Err(ContractError::ContractMathError),
        }
    }
}

/// `|a - b|` of two 256-bit values.
pub fn abs_diff(env: &Env, a: &Wide, b: &Wide) -> (r: Wide)
    ensures
        r.value() == abs_diff_spec(a.value(), b.value()),
{
    if wide_lt(env, a, b) {
        wide_sub(env, b, a)
    } else {
        wide_sub(env, a, b)
    }
}

/// The amplification coefficient at `block_time`.
pub fn compute_current_amp(block_time: u64, amp_params: &AmplifierParameters) -> (r: u64)
    requires
        block_time < amp_params.next_amp_time ==> amp_params.init_amp_time < amp_params.next_amp_time,
    ensures
        r == current_amp_spec(block_time, *amp_params),
{
    if block_time < amp_params.next_amp_time {
        let elapsed_time: u128 = block_time.saturating_sub(amp_params.init_amp_time) as u128;
        let time_range = amp_params.next_amp_time.saturating_sub(amp_params.init_amp_time);
        let init_amp = amp_params.init_amp as u128;
        let next_amp = amp_params.next_amp as u128;
        proof {
            assert(elapsed_time <= time_range);
        }
        if next_amp > init_amp {
            let amp_range = next_amp - init_amp;
            proof {
                assert(amp_range * elapsed_time <= amp_range * time_range) by (nonlinear_arith)
                    requires elapsed_time <= time_range;
                assert(amp_range * time_range <= u64::MAX * u64::MAX) by (nonlinear_arith)
                    requires amp_range <= u64::MAX, time_range <= u64::MAX;
                vstd::arithmetic::div_mod::lemma_div_is_ordered(
                    (amp_range * elapsed_time) as int, (amp_range * time_range) as int, time_range as int);
                vstd::arithmetic::div_mod::lemma_div_by_multiple(amp_range as int, time_range as int);
            }
            let res = init_amp + (amp_range * elapsed_time) / time_range as u128;
            res as u64
        } else {
            let amp_range = init_amp - next_amp;
            proof {
                assert(amp_range * elapsed_time <= amp_range * time_range) by (nonlinear_arith)
                    requires elapsed_time <= time_range;
                assert(amp_range * time_range <= u64::MAX * u64::MAX) by (nonlinear_arith)
                    requires amp_range <= u64::MAX, time_range <= u64::MAX;
                vstd::arithmetic::div_mod::lemma_div_is_ordered(
                    (amp_range * elapsed_time) as int, (amp_range * time_range) as int, time_range as int);
                vstd::arithmetic::div_mod::lemma_div_by_multiple(amp_range as int, time_range as int);
            }
            let res = init_amp - (amp_range * elapsed_time) / time_range as u128;
            res as u64
        }
    } else {
        amp_params.next_amp
    }
}

/// One Newton step for `D`, or `None` where a host operation would trap.
fn calculate_step(
    env: &Env,
    initial_d: &Wide,
    leverage: &Wide,
    sum_x: &Wide,
    d_product: &Wide,
) -> (r: Option<Wide>)
    ensures
        match step_spec(initial_d.value(), leverage.value(), sum_x.value(), d_product.value()) {
            Some(v) => r.is_some() && r.unwrap().value() == v,
            None => r.is_none(),
        },
{
    let two = wide_from_u128(env, N_COINS);
    let one = wide_from_u128(env, 1);
    let three = wide_from_u128(env, 3);
    let zero = wide_from_u128(env, 0);
    // (leverage * sum_x + d_product * n_coins) * initial_d
    let leverage_mul = match wide_checked_mul(env, leverage, sum_x) {
        Some(v) => v,
        None => return None,
    };
    let d_p_mul = match wide_checked_mul(env, d_product, &two) {
        Some(v) => v,
        None => return None,
    };
    let l_sum = match wide_checked_add(env, &leverage_mul, &d_p_mul) {
        Some(v) => v,
        None => return None,
    };
    let l_val = match wide_checked_mul(env, &l_sum, initial_d) {
        Some(v) => v,
        None => return None,
    };
    // (leverage - 1) * initial_d
    let leverage_less = match wide_checked_sub(env, leverage, &one) {
        Some(v) => v,
        None => return None,
    };
    let leverage_sub = match wide_checked_mul(env, initial_d, &leverage_less) {
        Some(v) => v,
        None => return None,
    };
    // (n_coins + 1) * d_product
    let n_coins_sum = match wide_checked_mul(env, d_product, &three) {
        Some(v) => v,
        None => return None,
    };
    let r_val = match wide_checked_add(env, &leverage_sub, &n_coins_sum) {
        Some(v) => v,
        None => return None,
    };
    if !wide_lt(env, &zero, &r_val) {
        return None;
    }
    Some(wide_div(env, &l_val, &r_val))
}

/// The stable-swap invariant `D` of the balances `pools[0]`, `pools[1]`
/// (18 digits each), found by at most 64 Newton steps:
/// `A * sum(x_i) * n^n + D = A * D * n^n + D^(n+1) / (n^n * prod(x_i))`.
pub fn compute_d(env: &Env, amp: u128, pools: &[u128]) -> (r: Result<Wide, ContractError>)
    requires
        pools@.len() >= 2,
    ensures
        wide_result(r) == compute_d_spec(amp as int, pools@[0] as int, pools@[1] as int),
{
    let x0 = pools[0];
    let x1 = pools[1];
    let lev_factor = amp / (AMP_PRECISION as u128);
    let lev_u128 = match lev_factor.checked_mul(N_COINS_PRECISION) {
        Some(v) => v,
        None => return Err(ContractError::ContractMathError),
    };
    let leverage = wide_from_u128(env, lev_u128);
    let two = wide_from_u128(env, N_COINS);
    let a_w = wide_from_u128(env, x0);
    let b_w = wide_from_u128(env, x1);
    proof {
        assert(x0 * 2 <= u128::MAX * 2);
        assert(x1 * 2 <= u128::MAX * 2);
    }
    let amount_a_times_coins = wide_mul(env, &a_w, &two);
    let amount_b_times_coins = wide_mul(env, &b_w, &two);
    let sum_u128 = match x0.checked_add(x1) {
        Some(v) => v,
        None => return Err(ContractError::ContractMathError),
    };
    let sum_x = wide_from_u128(env, sum_u128);
    let zero = wide_from_u128(env, 0);
    if sum_u128 == 0 {
        return Ok(zero);
    }
    let a_times_b_product = match wide_checked_mul(env, &amount_a_times_coins, &amount_b_times_coins) {
        Some(v) => v,
        None => return Err(ContractError::ContractMathError),
    };
    if !wide_lt(env, &zero, &a_times_b_product) {
        return Err(ContractError::ContractMathError);
    }
    let tol = wide_from_u128(env, TOL);
    let mut d: Wide = sum_x;
    let mut i: u8 = 0;
    while i < ITERATIONS
        invariant
            0 <= i <= ITERATIONS,
            pools@.len() >= 2,
            x0 == pools@[0],
            x1 == pools@[1],
            leverage.value() == (amp as int / AMP_PRECISION as int) * N_COINS_PRECISION as int,
            sum_x.value() == x0 + x1,
            a_times_b_product.value() == (x0 * 2) * (x1 * 2),
            a_times_b_product.value() != 0,
            tol.value() == TOL,
            compute_d_spec(amp as int, x0 as int, x1 as int) == d_newton(
                (ITERATIONS - i) as nat,
                d.value(),
                leverage.value(),
                sum_x.value(),
                a_times_b_product.value(),
            ),
        decreases ITERATIONS - i,
    {
        let d_sq = match wide_checked_mul(env, &d, &d) {
            Some(v) => v,
            None => return Err(ContractError::ContractMathError),
        };
        let d_cube = match wide_checked_mul(env, &d_sq, &d) {
            Some(v) => v,
            None => return Err(ContractError::ContractMathError),
        };
        let d_product = wide_div(env, &d_cube, &a_times_b_product);
        let d_previous = d;
        d = match calculate_step(env, &d, &leverage, &sum_x, &d_product) {
            Some(v) => v,
            None => return Err(ContractError::ContractMathError),
        };
        // Equality with the precision of 1e-6
        let diff = abs_diff(env, &d, &d_previous);
        if wide_le(env, &diff, &tol) {
            return Ok(d);
        }
        i = i + 1;
    }
    Err(ContractError::NewtonMethodFailed)
}

/// The balance `y` of the other coin, at `target_precision` digits, that keeps
/// the invariant `D` of `xp` when one balance becomes `new_amount_u128`
/// (18 digits): `y^2 + b*y = c` solved by at most 64 steps of
/// `y = (y^2 + c) / (2y + b - D)`, with `c = D^3 * 10^20 / (4 * new_amount * leverage)`
/// and `b = new_amount + D * 10^20 / leverage`, `leverage = amp * 10^18 * 2`.
pub fn calc_y(
    env: &Env,
    amp: u128,
    new_amount_u128: u128,
    xp: &[u128],
    target_precision: u32,
) -> (r: Result<u128, ContractError>)
    requires
        xp@.len() >= 2,
    ensures
        u128_result(r) == calc_y_spec(
            amp as int,
            new_amount_u128 as int,
            xp@[0] as int,
            xp@[1] as int,
            target_precision as int,
        ),
{
    let coins_count = wide_from_u128(env, N_COINS);
    let new_u256_amount = wide_from_u128(env, new_amount_u128);
    let invariant_d = match compute_d(env, amp, xp) {
        Ok(d) => d,
        Err(e) => return Err(e),
    };
    let amp_precision_factor = wide_from_u128(env, (AMP_PRECISION as u128) * DECIMAL_FRACTIONAL);
    let amp_w = wide_from_u128(env, amp);
    let fractional = wide_from_u128(env, DECIMAL_FRACTIONAL);
    proof {
        assert(amp * DECIMAL_FRACTIONAL <= u128::MAX * DECIMAL_FRACTIONAL) by (nonlinear_arith)
            requires amp <= u128::MAX;
    }
    let amp_scaled = wide_mul(env, &amp_w, &fractional);
    let leverage = wide_mul(env, &amp_scaled, &coins_count);
    let zero = wide_from_u128(env, 0);
    // D^2
    let invariant_sq = match wide_checked_mul(env, &invariant_d, &invariant_d) {
        Some(v) => v,
        None => return Err(ContractError::ContractMathError),
    };
    // n_coins^2 * new_amount
    let coins_count_sq = wide_mul(env, &coins_count, &coins_count);
    proof {
        assert(4 * new_amount_u128 <= 4 * u128::MAX);
    }
    let denominator_chunk1 = wide_mul(env, &coins_count_sq, &new_u256_amount);
    if !wide_lt(env, &zero, &denominator_chunk1) {
        return Err(ContractError::ContractMathError);
    }
    let temp_factor1 = wide_div(env, &invariant_sq, &denominator_chunk1);
    let temp_factor2 = match wide_checked_mul(env, &temp_factor1, &invariant_d) {
        Some(v) => v,
        None => return Err(ContractError::ContractMathError),
    };
    let temp_factor3 = match wide_checked_mul(env, &temp_factor2, &amp_precision_factor) {
        Some(v) => v,
        None => return Err(ContractError::ContractMathError),
    };
    if !wide_lt(env, &zero, &leverage) {
        return Err(ContractError::ContractMathError);
    }
    let constant_c = wide_div(env, &temp_factor3, &leverage);
    let scaled_d_full = match wide_checked_mul(env, &invariant_d, &amp_precision_factor) {
        Some(v) => v,
        None => return Err(ContractError::ContractMathError),
    };
    let scaled_d = wide_div(env, &scaled_d_full, &leverage);
    let coefficient_b = match wide_checked_add(env, &new_u256_amount, &scaled_d) {
        Some(v) => v,
        None => return Err(ContractError::ContractMathError),
    };
    let tol = wide_from_u128(env, TOL);
    let mut y_guess: Wide = invariant_d;
    let mut i: u8 = 0;
    while i < ITERATIONS
        invariant
            0 <= i <= ITERATIONS,
            xp@.len() >= 2,
            tol.value() == TOL,
            coins_count.value() == 2,
            zero.value() == 0,
            calc_y_spec(amp as int, new_amount_u128 as int, xp@[0] as int, xp@[1] as int, target_precision as int)
                == finish_y(
                y_newton(
                    (ITERATIONS - i) as nat,
                    y_guess.value(),
                    constant_c.value(),
                    coefficient_b.value(),
                    invariant_d.value(),
                ),
                target_precision as int,
            ),
        decreases ITERATIONS - i,
    {
        let y_prev = y_guess;
        let y_sq = match wide_checked_mul(env, &y_guess, &y_guess) {
            Some(v) => v,
            None => return Err(ContractError::ContractMathError),
        };
        let numerator = match wide_checked_add(env, &y_sq, &constant_c) {
            Some(v) => v,
            None => return Err(ContractError::ContractMathError),
        };
        let twice_y = match wide_checked_mul(env, &coins_count, &y_guess) {
            Some(v) => v,
            None => return Err(ContractError::ContractMathError),
        };
        let with_b = match wide_checked_add(env, &twice_y, &coefficient_b) {
            Some(v) => v,
            None => return Err(ContractError::ContractMathError),
        };
        let denominator = match wide_checked_sub(env, &with_b, &invariant_d) {
            Some(v) => v,
            None => return Err(ContractError::ContractMathError),
        };
        if !wide_lt(env, &zero, &denominator) {
            return Err(ContractError::ContractMathError);
        }
        y_guess = wide_div(env, &numerator, &denominator);
        let diff = abs_diff(env, &y_guess, &y_prev);
        if wide_le(env, &diff, &tol) {
            // Scale down from DECIMAL_PRECISION to `target_precision`.
            if target_precision > DECIMAL_PRECISION {
                return Err(ContractError::ContractMathError);
            }
            let divisor = pow10_u128(DECIMAL_PRECISION - target_precision);
            return match wide_to_u128(env, &y_guess) {
                Some(v) => Ok(v / divisor),
                None => Err(ContractError::ContractMathError),
            };
        }
        i = i + 1;
    }
    Err(ContractError::CalcYErr)
}

/// `10^k` as a `u128`.
pub fn pow10_u128(k: u32) -> (r: u128)
    requires
        k <= 38,
    ensures
        r == vstd::arithmetic::power::pow(10, k as nat),
        r > 0,
{
    let v = crate::decimal::pow10_i128(k);
    proof {
        vstd::arithmetic::power::lemma_pow_positive(10, k as nat);
    }
    v as u128
}

} // verus!

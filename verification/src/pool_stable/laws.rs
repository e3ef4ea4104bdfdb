//! What the pool's decisions promise across calls.
use vstd::prelude::*;

use super::contract::{
    compute_offer_amount_spec, compute_swap_spec, deposit_shares_spec, inv_one_minus_spec, mul_decimal_spec, plan_swap_spec,
    share_spec, withdraw_spec,
};
use super::math::{calc_y_spec, scale_spec};
use super::DECIMAL_PRECISION;
use super::math::current_amp_spec;
use super::storage::{AmplifierParameters, Config};
use crate::address::AddressKey;
use crate::decimal::{mul_atomics, ratio_atomics, DECIMAL_FRACTIONAL};

verus! {

/// A swap that goes through hands out the return, spread and commission
/// that simulating it on the same pool state reports.
pub proof fn lemma_swap_as_simulated(
    config: Config,
    offer_asset: AddressKey,
    offer_amount: int,
    ask_asset_min_amount: Option<i128>,
    max_spread_bps: Option<i64>,
    max_allowed_fee_bps: Option<i64>,
    pool_a: int,
    pool_b: int,
    precision_a: int,
    precision_b: int,
    amp: int,
    greatest_precision: int,
)
    requires
        plan_swap_spec(config, offer_asset, offer_amount, ask_asset_min_amount, max_spread_bps, max_allowed_fee_bps,
            pool_a, pool_b, precision_a, precision_b, amp, greatest_precision) is Ok,
    ensures
        ({
            let (offer_is_a, ret, spread, commission) = plan_swap_spec(config, offer_asset, offer_amount,
                ask_asset_min_amount, max_spread_bps, max_allowed_fee_bps, pool_a, pool_b, precision_a, precision_b, amp,
                greatest_precision).unwrap();
            &&& offer_is_a == (offer_asset == config.token_a)
            &&& (offer_asset == config.token_a || offer_asset == config.token_b)
            &&& compute_swap_spec(
                amp,
                greatest_precision,
                if offer_is_a { pool_a } else { pool_b },
                if offer_is_a { precision_a } else { precision_b },
                if offer_is_a { pool_b } else { pool_a },
                if offer_is_a { precision_b } else { precision_a },
                offer_amount,
                config.total_fee_bps as int * 100_000_000_000_000,
            ) == Ok::<(int, int, int), super::error::ContractError>((ret, spread, commission))
        }),
{
}

/// Withdrawing LP shares pays out what querying the share of those LP
/// shares reports.
pub proof fn lemma_withdraw_as_queried(pool_a: int, pool_b: int, total_shares: int, share_amount: int, min_a: int, min_b: int)
    requires
        withdraw_spec(pool_a, pool_b, total_shares, share_amount, min_a, min_b) is Ok,
    ensures
        ({
            let (ret_a, ret_b, _, _, _) = withdraw_spec(pool_a, pool_b, total_shares, share_amount, min_a, min_b).unwrap();
            share_spec(share_amount, total_shares, pool_a, pool_b) == Ok::<(int, int), super::error::ContractError>((ret_a, ret_b))
        }),
{
}

/// `x * ratio`, for a ratio between 0 and 1, lies between 0 and `x`.
proof fn lemma_scaled_down(x: int, ratio: int)
    requires
        x >= 0,
        0 <= ratio <= DECIMAL_FRACTIONAL,
    ensures
        0 <= mul_atomics(x, ratio) <= x,
{
    assert(0 <= x * ratio <= x * DECIMAL_FRACTIONAL) by (nonlinear_arith)
        requires x >= 0, 0 <= ratio <= DECIMAL_FRACTIONAL;
    if x * ratio > 0 {
        vstd::arithmetic::div_mod::lemma_div_is_ordered(x * ratio, x * DECIMAL_FRACTIONAL, DECIMAL_FRACTIONAL as int);
        vstd::arithmetic::div_mod::lemma_div_by_multiple(x, DECIMAL_FRACTIONAL as int);
    }
}

/// Withdrawing at most all LP shares never pays out more than the pool
/// holds, and the pool keeps exactly the rest.
pub proof fn lemma_withdraw_within_pool(pool_a: int, pool_b: int, total_shares: int, share_amount: int, min_a: int, min_b: int)
    requires
        pool_a >= 0,
        pool_b >= 0,
        0 <= share_amount <= total_shares,
        withdraw_spec(pool_a, pool_b, total_shares, share_amount, min_a, min_b) is Ok,
    ensures
        ({
            let (ret_a, ret_b, new_total, new_a, new_b) = withdraw_spec(pool_a, pool_b, total_shares, share_amount, min_a, min_b).unwrap();
            &&& 0 <= ret_a <= pool_a
            &&& 0 <= ret_b <= pool_b
            &&& new_a == pool_a - ret_a
            &&& new_b == pool_b - ret_b
            &&& new_total == total_shares - share_amount
        }),
{
    let ratio = ratio_atomics(share_amount, total_shares);
    assert(total_shares > 0);
    assert(0 <= share_amount * DECIMAL_FRACTIONAL <= total_shares * DECIMAL_FRACTIONAL) by (nonlinear_arith)
        requires 0 <= share_amount <= total_shares;
    if share_amount * DECIMAL_FRACTIONAL > 0 {
        vstd::arithmetic::div_mod::lemma_div_is_ordered(share_amount * DECIMAL_FRACTIONAL, total_shares * DECIMAL_FRACTIONAL, total_shares);
        vstd::arithmetic::div_mod::lemma_div_by_multiple(DECIMAL_FRACTIONAL as int, total_shares);
        assert(total_shares * DECIMAL_FRACTIONAL == DECIMAL_FRACTIONAL * total_shares) by (nonlinear_arith);
    }
    assert(0 <= ratio <= DECIMAL_FRACTIONAL);
    lemma_scaled_down(pool_a, ratio);
    lemma_scaled_down(pool_b, ratio);
}

/// While the amplification ramps from `init_amp` to `next_amp`, it stays
/// between the two: it is `init_amp` until the ramp starts and `next_amp`
/// once it ends.
pub proof fn lemma_amp_between(block_time: u64, p: AmplifierParameters)
    requires
        p.init_amp_time < p.next_amp_time,
    ensures
        p.init_amp <= p.next_amp ==> p.init_amp <= current_amp_spec(block_time, p) <= p.next_amp,
        p.next_amp <= p.init_amp ==> p.next_amp <= current_amp_spec(block_time, p) <= p.init_amp,
        block_time <= p.init_amp_time ==> current_amp_spec(block_time, p) == p.init_amp,
        block_time >= p.next_amp_time ==> current_amp_spec(block_time, p) == p.next_amp,
{
    if block_time < p.next_amp_time {
        let elapsed: int = if block_time >= p.init_amp_time { block_time - p.init_amp_time } else { 0 };
        let range: int = p.next_amp_time - p.init_amp_time;
        let d: int = if p.next_amp > p.init_amp { p.next_amp - p.init_amp } else { p.init_amp - p.next_amp };
        assert(0 <= elapsed < range);
        assert(0 <= d * elapsed <= d * range) by (nonlinear_arith)
            requires 0 <= elapsed < range, d >= 0;
        vstd::arithmetic::div_mod::lemma_div_is_ordered(d * elapsed, d * range, range);
        vstd::arithmetic::div_mod::lemma_div_by_multiple(d, range);
        vstd::arithmetic::div_mod::lemma_div_pos_is_pos(d * elapsed, range);
        if elapsed == 0 {
            assert(d * elapsed == 0) by (nonlinear_arith)
                requires elapsed == 0;
        }
    }
}

/// A swap that goes through with a minimum to receive hands the seller at
/// least that minimum, after commission.
pub proof fn lemma_swap_pays_at_least_the_minimum(
    config: Config,
    offer_asset: AddressKey,
    offer_amount: int,
    min_to_receive: i128,
    max_spread_bps: Option<i64>,
    max_allowed_fee_bps: Option<i64>,
    pool_a: int,
    pool_b: int,
    precision_a: int,
    precision_b: int,
    amp: int,
    greatest_precision: int,
)
    requires
        plan_swap_spec(config, offer_asset, offer_amount, Some(min_to_receive), max_spread_bps, max_allowed_fee_bps,
            pool_a, pool_b, precision_a, precision_b, amp, greatest_precision) is Ok,
    ensures
        plan_swap_spec(config, offer_asset, offer_amount, Some(min_to_receive), max_spread_bps, max_allowed_fee_bps,
            pool_a, pool_b, precision_a, precision_b, amp, greatest_precision).unwrap().1 >= min_to_receive,
{
}

/// A deposit that goes through with a minimum of shares mints at least that
/// many shares, whether or not the pool held shares before.
pub proof fn lemma_deposit_mints_at_least_the_minimum(
    amp: int,
    greatest_precision: int,
    dec_a: int,
    dec_b: int,
    old_a: int,
    old_b: int,
    received_a: int,
    received_b: int,
    total_shares: int,
    min_shares: u128,
)
    requires
        deposit_shares_spec(amp, greatest_precision, dec_a, dec_b, old_a, old_b, received_a, received_b, total_shares,
            Some(min_shares)) is Ok,
    ensures
        deposit_shares_spec(amp, greatest_precision, dec_a, dec_b, old_a, old_b, received_a, received_b, total_shares,
            Some(min_shares)).unwrap() >= min_shares,
{
}

/// A reverse quote solves the invariant for the offer side: with the ask
/// side's balance lowered by the amount bought before commission
/// (`ask_amount / (1 - rate)`), the stable-swap solver gives the offer
/// side's new balance, and the quote is what the offer balance grows by.
/// The spread is the offer's excess over the amount asked, and the
/// commission is taken on the amount bought before commission.
pub proof fn lemma_offer_quote_solves_for_the_offer_side(
    amp: int,
    greatest_precision: int,
    offer_pool: int,
    offer_precision: int,
    ask_pool: int,
    ask_precision: int,
    ask_amount: int,
    rate: int,
)
    requires
        compute_offer_amount_spec(amp, greatest_precision, offer_pool, offer_precision, ask_pool, ask_precision,
            ask_amount, rate) is Ok,
    ensures
        ({
            let (offer, spread, commission) = compute_offer_amount_spec(amp, greatest_precision, offer_pool,
                offer_precision, ask_pool, ask_precision, ask_amount, rate).unwrap();
            let bought = mul_decimal_spec(ask_amount, inv_one_minus_spec(rate).unwrap()).unwrap();
            &&& inv_one_minus_spec(rate) is Some
            &&& mul_decimal_spec(ask_amount, inv_one_minus_spec(rate).unwrap()) is Some
            &&& 0 <= bought <= ask_pool
            &&& offer >= 0
            &&& scale_spec(ask_pool - bought, greatest_precision, DECIMAL_PRECISION as int) matches Some(new_ask)
                && scale_spec(offer_pool, offer_precision, DECIMAL_PRECISION as int) matches Some(x0)
                && scale_spec(ask_pool, ask_precision, DECIMAL_PRECISION as int) matches Some(x1)
                && calc_y_spec(amp, new_ask, x0, x1, greatest_precision) == Ok::<int, super::error::ContractError>(offer_pool + offer)
            &&& spread == if offer > ask_amount { offer - ask_amount } else { 0 }
            &&& mul_decimal_spec(bought, rate) == Some(commission)
        }),
{
}

/// A swap solves the invariant for the ask side: with the offer side's
/// balance grown by the offer, the stable-swap solver gives the ask side's
/// new balance, and the pool pays out what the ask balance shrinks by. Of that, the commission is taken at `rate`
/// and the rest goes to the seller; the spread is the offer's excess over
/// what the pool pays out.
pub proof fn lemma_swap_solves_for_the_ask_side(
    amp: int,
    greatest_precision: int,
    offer_pool: int,
    offer_precision: int,
    ask_pool: int,
    ask_precision: int,
    offer_amount: int,
    rate: int,
)
    requires
        compute_swap_spec(amp, greatest_precision, offer_pool, offer_precision, ask_pool, ask_precision, offer_amount,
            rate) is Ok,
    ensures
        ({
            let (ret, spread, commission) = compute_swap_spec(amp, greatest_precision, offer_pool, offer_precision,
                ask_pool, ask_precision, offer_amount, rate).unwrap();
            let paid = ret + commission;
            &&& 0 <= paid
            &&& scale_spec(offer_pool + offer_amount, greatest_precision, DECIMAL_PRECISION as int) matches Some(new_offer)
                && scale_spec(offer_pool, offer_precision, DECIMAL_PRECISION as int) matches Some(x0)
                && scale_spec(ask_pool, ask_precision, DECIMAL_PRECISION as int) matches Some(x1)
                && calc_y_spec(amp, new_offer, x0, x1, greatest_precision) == Ok::<int, super::error::ContractError>(ask_pool - paid)
            &&& mul_decimal_spec(paid, rate) == Some(commission)
            &&& spread == if offer_amount > paid { offer_amount - paid } else { 0 }
        }),
{
}

} // verus!

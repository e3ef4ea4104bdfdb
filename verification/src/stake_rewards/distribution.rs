//! Points-per-share reward bookkeeping: each staker's rewards are
//! `shares_per_point * power + correction`, shifted down by `SHARES_SHIFT`
//! bits, less what they already withdrew.
use vstd::prelude::*;

use super::storage::{Config, Stake};
use super::TOKEN_PER_POWER;
use crate::curve::{curve_end_spec, curve_value_spec, Curve};
use crate::decimal::{in_i128, mul_atomics, ratio_atomics, tdiv, Decimal, DECIMAL_FRACTIONAL};

verus! {

/// Reward points are kept shifted left by this many bits, for precision.
pub const SHARES_SHIFT: u8 = 32;

/// `2^SHARES_SHIFT`.
pub const SHARES_SCALE: i128 = 4294967296;

pub const SECONDS_PER_DAY: u64 = 86400;

pub const SECONDS_PER_YEAR: u64 = 31536000;

/// The reward distribution of one token.
#[derive(Clone, Copy, Debug, PartialEq, Eq, Structural, Default)]
pub struct Distribution {
    /// How many shares a single point is worth.
    pub shares_per_point: u128,
    /// Shares not fully handed out by earlier distributions.
    pub shares_leftover: u64,
    /// All rewards ever distributed.
    pub distributed_total: u128,
    /// Rewards distributed and not yet withdrawn.
    pub withdrawable_total: u128,
    /// Largest bonus for staking 60 days.
    pub max_bonus_bps: u64,
    /// Bonus per day staked.
    pub bonus_per_day_bps: u64,
}

/// A staker's correction of reward points, and what they withdrew.
#[derive(Clone, Copy, Debug, PartialEq, Eq, Structural, Default)]
pub struct WithdrawAdjustment {
    /// Correction to the staker's reward points; may be negative.
    pub shares_correction: i128,
    /// Rewards the staker has withdrawn so far.
    pub withdrawn_rewards: u128,
}

/// Whether `power_spec` can be computed without the arithmetic trapping.
pub open spec fn power_defined(min_bond: int, stakes: int, multiplier: int, token_per_power: int) -> bool {
    stakes < min_bond || {
        &&& in_i128(mul_atomics(stakes, multiplier))
        &&& token_per_power != 0
        &&& !(mul_atomics(stakes, multiplier) == i128::MIN && token_per_power == -1)
    }
}

/// Rewards power: nothing below the minimum bond, otherwise
/// `stakes * multiplier / token_per_power`.
pub open spec fn power_spec(min_bond: int, stakes: int, multiplier: int, token_per_power: int) -> int {
    if stakes < min_bond {
        0
    } else {
        tdiv(mul_atomics(stakes, multiplier), token_per_power)
    }
}

/// The rewards power of `stakes` staked tokens.
pub fn calc_power(config: &Config, stakes: i128, multiplier: Decimal, token_per_power: i32) -> (r: i128)
    requires
        power_defined(config.min_bond as int, stakes as int, multiplier.0 as int, token_per_power as int),
    ensures
        r == power_spec(config.min_bond as int, stakes as int, multiplier.0 as int, token_per_power as int),
{
    power_of(config.min_bond, stakes, multiplier, token_per_power)
}

/// The rewards power of `stakes` staked tokens, given the minimum bond.
pub fn power_of(min_bond: i128, stakes: i128, multiplier: Decimal, token_per_power: i32) -> (r: i128)
    requires
        power_defined(min_bond as int, stakes as int, multiplier.0 as int, token_per_power as int),
    ensures
        r == power_spec(min_bond as int, stakes as int, multiplier.0 as int, token_per_power as int),
{
    if stakes < min_bond {
        0
    } else {
        let product = Decimal::mul_int(stakes, multiplier);
        crate::decimal::div_trunc(product, token_per_power as i128)
    }
}

/// The rewards power, or `None` where computing it would trap.
pub fn checked_power_of(min_bond: i128, stakes: i128, multiplier: Decimal, token_per_power: i32) -> (r: Option<i128>)
    ensures
        power_defined(min_bond as int, stakes as int, multiplier.0 as int, token_per_power as int)
            ==> r == Some(power_spec(min_bond as int, stakes as int, multiplier.0 as int, token_per_power as int) as i128),
        !power_defined(min_bond as int, stakes as int, multiplier.0 as int, token_per_power as int) ==> r is None,
{
    if stakes < min_bond {
        return Some(0);
    }
    let product = match Decimal::checked_mul_int(stakes, multiplier) {
        Some(p) => p,
        None => return None,
    };
    if token_per_power == 0 {
        return None;
    }
    if product == i128::MIN && token_per_power == -1 {
        return None;
    }
    Some(crate::decimal::div_trunc(product, token_per_power as i128))
}

/// The rewards power of `stakes` at the standard multiplier of one.
pub open spec fn standard_power(min_bond: int, stakes: int) -> int {
    power_spec(min_bond, stakes, DECIMAL_FRACTIONAL as int, TOKEN_PER_POWER as int)
}

/// Above a positive minimum bond, rewards power is never negative.
pub proof fn lemma_standard_power_nonneg(min_bond: int, stakes: int)
    requires
        min_bond > 0,
    ensures
        standard_power(min_bond, stakes) >= 0,
{
    if stakes >= min_bond {
        assert(stakes * DECIMAL_FRACTIONAL >= 0) by (nonlinear_arith)
            requires stakes >= 0;
        assert(tdiv(stakes * DECIMAL_FRACTIONAL, DECIMAL_FRACTIONAL as int) >= 0);
    }
}

/// Whether the rewards a staker can withdraw can be computed without trapping.
pub open spec fn withdrawable_defined(total_staked: int, d: Distribution, a: WithdrawAdjustment, min_bond: int) -> bool {
    let power = standard_power(min_bond, total_staked);
    let points = d.shares_per_point * (power as u128);
    &&& power_defined(min_bond, total_staked, DECIMAL_FRACTIONAL as int, TOKEN_PER_POWER as int)
    &&& points <= u128::MAX
    &&& in_i128((points as i128) + a.shares_correction)
    &&& (((points as i128) + a.shares_correction) / (SHARES_SCALE as int)) as u128 >= a.withdrawn_rewards
}

/// `(shares_per_point * power + correction) >> SHARES_SHIFT - withdrawn`.
pub open spec fn withdrawable_spec(total_staked: int, d: Distribution, a: WithdrawAdjustment, min_bond: int) -> int {
    let power = standard_power(min_bond, total_staked);
    let points = d.shares_per_point * (power as u128);
    (((points as i128) + a.shares_correction) / (SHARES_SCALE as int)) as u128 - a.withdrawn_rewards
}

/// The rewards a staker with `total_staked` tokens can withdraw now.
pub fn withdrawable_rewards(
    total_staked: i128,
    distribution: &Distribution,
    adjustment: &WithdrawAdjustment,
    config: &Config,
) -> (r: u128)
    requires
        withdrawable_defined(total_staked as int, *distribution, *adjustment, config.min_bond as int),
    ensures
        r == withdrawable_spec(total_staked as int, *distribution, *adjustment, config.min_bond as int),
{
    let ppw = distribution.shares_per_point;
    let points = calc_power(config, total_staked, Decimal::one(), TOKEN_PER_POWER);
    let points = (ppw * points as u128) as i128;
    let correction = adjustment.shares_correction;
    let points = points + correction;
    let amount = match points.checked_div_euclid(SHARES_SCALE) {
        Some(v) => v,
        None => 0,
    };
    amount as u128 - adjustment.withdrawn_rewards
}

/// The rewards a staker can withdraw, or `None` where computing them traps.
pub fn checked_withdrawable_rewards(
    total_staked: i128,
    distribution: &Distribution,
    adjustment: &WithdrawAdjustment,
    min_bond: i128,
) -> (r: Option<u128>)
    ensures
        withdrawable_defined(total_staked as int, *distribution, *adjustment, min_bond as int)
            ==> r == Some(withdrawable_spec(total_staked as int, *distribution, *adjustment, min_bond as int) as u128),
        !withdrawable_defined(total_staked as int, *distribution, *adjustment, min_bond as int) ==> r is None,
{
    let ppw = distribution.shares_per_point;
    let power = match checked_power_of(min_bond, total_staked, Decimal::one(), TOKEN_PER_POWER) {
        Some(p) => p,
        None => return None,
    };
    let points = match ppw.checked_mul(power as u128) {
        Some(p) => p as i128,
        None => return None,
    };
    let points = match points.checked_add(adjustment.shares_correction) {
        Some(p) => p,
        None => return None,
    };
    let amount = match points.checked_div_euclid(SHARES_SCALE) {
        Some(v) => v,
        None => 0,
    };
    if (amount as u128) < adjustment.withdrawn_rewards {
        return None;
    }
    Some(amount as u128 - adjustment.withdrawn_rewards)
}

/// Whether correcting a staker's points for a change of power can be
/// computed without trapping.
pub open spec fn update_defined(a: WithdrawAdjustment, d: Distribution, old_power: int, new_power: int) -> bool {
    old_power == new_power || {
        let diff = new_power - old_power;
        let ppw = (d.shares_per_point as i128) as int;
        &&& in_i128(diff)
        &&& in_i128(ppw * diff)
        &&& in_i128(a.shares_correction - ppw * diff)
    }
}

/// Corrects a staker's points when their rewards power changes from
/// `old_rewards_power` to `new_rewards_power`, so that past rewards stay as
/// they were: the correction drops by `shares_per_point * (new - old)`.
pub fn update_rewards(
    adjustment: &mut WithdrawAdjustment,
    distribution: &Distribution,
    old_rewards_power: i128,
    new_rewards_power: i128,
)
    requires
        update_defined(*old(adjustment), *distribution, old_rewards_power as int, new_rewards_power as int),
    ensures
        old_rewards_power == new_rewards_power ==> *final(adjustment) == *old(adjustment),
        old_rewards_power != new_rewards_power ==> *final(adjustment) == (WithdrawAdjustment {
            shares_correction: (old(adjustment).shares_correction - (distribution.shares_per_point as i128) * (
            new_rewards_power - old_rewards_power)) as i128,
            withdrawn_rewards: old(adjustment).withdrawn_rewards,
        }),
{
    if old_rewards_power == new_rewards_power {
        return;
    }
    let diff = new_rewards_power - old_rewards_power;
    // Apply the points correction with the calculated difference.
    let ppw = distribution.shares_per_point;
    apply_points_correction(adjustment, diff, ppw);
}

/// Lowers the staker's correction by `shares_per_point * diff`.
fn apply_points_correction(adjustment: &mut WithdrawAdjustment, diff: i128, shares_per_point: u128)
    requires
        in_i128((shares_per_point as i128) * diff),
        in_i128(old(adjustment).shares_correction - (shares_per_point as i128) * diff),
    ensures
        *final(adjustment) == (WithdrawAdjustment {
            shares_correction: (old(adjustment).shares_correction - (shares_per_point as i128) * diff) as i128,
            withdrawn_rewards: old(adjustment).withdrawn_rewards,
        }),
{
    let shares_correction = adjustment.shares_correction;
    adjustment.shares_correction = shares_correction - shares_per_point as i128 * diff;
}

proof fn lemma_pow10_18()
    ensures
        vstd::arithmetic::power::pow(10, 18) == DECIMAL_FRACTIONAL,
{
    reveal_with_fuel(vstd::arithmetic::power::pow, 19);
}

/// The rewards a curve releases over the coming year, as a decimal: the
/// drop of the curve over the year when it runs a year or longer, else its
/// current value extrapolated from the time it has left. `None` where the
/// arithmetic traps.
pub open spec fn annualized_payout_spec(reward_curve: Option<Curve>, now: u64) -> Option<int> {
    match reward_curve {
        None => Some(0),
        Some(c) => match curve_end_spec(c) {
            None => Some(0),
            Some(last_timestamp) => if last_timestamp <= now {
                Some(0)
            } else {
                let time_diff = last_timestamp - now;
                if time_diff >= SECONDS_PER_YEAR {
                    if now + SECONDS_PER_YEAR > u64::MAX {
                        None
                    } else {
                        match (curve_value_spec(c, now), curve_value_spec(c, (now + SECONDS_PER_YEAR) as u64)) {
                            (Some(locked_now), Some(locked_end)) => if locked_now < locked_end {
                                None
                            } else {
                                let x = ((locked_now - locked_end) as i128) as int;
                                if !in_i128(x * DECIMAL_FRACTIONAL) {
                                    None
                                } else {
                                    Some(x * DECIMAL_FRACTIONAL)
                                }
                            },
                            _ => None,
                        }
                    }
                } else {
                    match curve_value_spec(c, now) {
                        None => None,
                        Some(locked_now) => if locked_now * SECONDS_PER_YEAR > u128::MAX {
                            None
                        } else {
                            let x = ((locked_now * SECONDS_PER_YEAR) as i128) as int;
                            if !in_i128(ratio_atomics(x, time_diff as int)) {
                                None
                            } else {
                                Some(ratio_atomics(x, time_diff as int))
                            }
                        },
                    }
                }
            },
        },
    }
}

/// The rewards `reward_curve` releases over the year from `now`.
pub fn calculate_annualized_payout(reward_curve: Option<Curve>, now: u64) -> (r: Decimal)
    requires
        annualized_payout_spec(reward_curve, now) is Some,
    ensures
        r.0 == annualized_payout_spec(reward_curve, now).unwrap(),
{
    match reward_curve {
        Some(c) => {
            // look at the last timestamp in the rewards curve and extrapolate
            match c.end() {
                Some(last_timestamp) => {
                    if last_timestamp <= now {
                        return Decimal::zero();
                    }
                    let time_diff = last_timestamp - now;
                    if time_diff >= SECONDS_PER_YEAR {
                        // the curve runs a year or longer: take its drop over the year
                        let locked_now = c.value(now);
                        let locked_end = c.value(now + SECONDS_PER_YEAR);
                        proof {
                            lemma_pow10_18();
                        }
                        Decimal::from_atomics((locked_now - locked_end) as i128, 0)
                    } else {
                        // the curve ends within the year: extrapolate its rate to a year
                        let locked_now = c.value(now);
                        Decimal::from_ratio((locked_now * SECONDS_PER_YEAR as u128) as i128, time_diff as i128)
                    }
                },
                None => {
                    // a freshly initialized curve: no rewards scheduled yet
                    Decimal::zero()
                },
            }
        },
        None => Decimal::zero(),
    }
}

/// The rewards `reward_curve` releases over the year from `now`, or `None`
/// where computing them traps.
pub fn checked_annualized_payout(reward_curve: &Option<Curve>, now: u64) -> (r: Option<Decimal>)
    ensures
        match annualized_payout_spec(*reward_curve, now) {
            Some(v) => r matches Some(d) && d.0 == v,
            None => r is None,
        },
{
    let c = match reward_curve {
        Some(c) => c,
        None => return Some(Decimal::zero()),
    };
    let last_timestamp = match c.end() {
        Some(t) => t,
        None => return Some(Decimal::zero()),
    };
    if last_timestamp <= now {
        return Some(Decimal::zero());
    }
    let time_diff = last_timestamp - now;
    if time_diff >= SECONDS_PER_YEAR {
        let year_end = match now.checked_add(SECONDS_PER_YEAR) {
            Some(t) => t,
            None => return None,
        };
        let locked_now = match c.checked_value(now) {
            Some(v) => v,
            None => return None,
        };
        let locked_end = match c.checked_value(year_end) {
            Some(v) => v,
            None => return None,
        };
        if locked_now < locked_end {
            return None;
        }
        let x = (locked_now - locked_end) as i128;
        match x.checked_mul(DECIMAL_FRACTIONAL) {
            Some(_) => {
                proof {
                    lemma_pow10_18();
                }
                Some(Decimal::from_atomics(x, 0))
            },
            None => None,
        }
    } else {
        let locked_now = match c.checked_value(now) {
            Some(v) => v,
            None => return None,
        };
        let scaled = match locked_now.checked_mul(SECONDS_PER_YEAR as u128) {
            Some(v) => v as i128,
            None => return None,
        };
        match Decimal::checked_from_ratio(scaled, time_diff as i128) {
            Ok(d) => Some(d),
            Err(_) => None,
        }
    }
}

/// The weighted and the total weight of a staker's bonds: each bond weighs
/// `60 * stake`, and counts `min(days staked, 60) * stake`. `None` where the
/// arithmetic traps.
pub open spec fn withdraw_power_sums(stakes: Seq<Stake>, now: u64) -> Option<(int, int)>
    decreases stakes.len(),
{
    if stakes.len() == 0 {
        Some((0, 0))
    } else {
        match withdraw_power_sums(stakes.drop_last(), now) {
            None => None,
            Some((weighted, total)) => {
                let s = stakes.last();
                if now < s.stake_timestamp {
                    None
                } else {
                    let days = (now - s.stake_timestamp) / (SECONDS_PER_DAY as int);
                    let power = if days < 60 { days } else { 60 };
                    let amount = (s.stake as u128) as int;
                    if power * amount > u128::MAX || weighted + power * amount > u128::MAX || 60 * amount > u128::MAX
                        || total + 60 * amount > u128::MAX {
                        None
                    } else {
                        Some((weighted + power * amount, total + 60 * amount))
                    }
                }
            },
        }
    }
}

/// The average staking power of the bonds, from 0 to 1.
pub open spec fn withdraw_power_spec(stakes: Seq<Stake>, now: u64) -> Option<int> {
    match withdraw_power_sums(stakes, now) {
        None => None,
        Some((weighted, total)) => if total > 0 {
            let w = ((weighted as u128) as i128) as int;
            let t = ((total as u128) as i128) as int;
            if t == 0 || !in_i128(ratio_atomics(w, t)) {
                None
            } else {
                Some(ratio_atomics(w, t))
            }
        } else {
            Some(0)
        },
    }
}

/// The average staking power of `stakes` at `current_date`: a bond younger
/// than 60 days counts 1/60 for each full day, an older one counts fully.
pub fn calc_withdraw_power(stakes: &Vec<Stake>, current_date: u64) -> (r: Decimal)
    requires
        withdraw_power_spec(stakes@, current_date) is Some,
    ensures
        r.0 == withdraw_power_spec(stakes@, current_date).unwrap(),
{
    let mut weighted_sum: u128 = 0;
    let mut total_weight: u128 = 0;
    let n = stakes.len();
    let mut i: usize = 0;
    proof {
        assert(stakes@.subrange(0, 0) =~= Seq::<Stake>::empty());
        lemma_sums_prefix_defined(stakes@, current_date, n as nat);
    }
    while i < n
        invariant
            n == stakes@.len(),
            0 <= i <= n,
            withdraw_power_sums(stakes@, current_date) is Some,
            withdraw_power_sums(stakes@.subrange(0, i as int), current_date) == Some((weighted_sum as int, total_weight as int)),
            forall|k: nat| k <= n ==> (#[trigger] withdraw_power_sums(stakes@.subrange(0, k as int), current_date)) is Some,
        decreases n - i,
    {
        let stake = stakes[i];
        proof {
            assert(stakes@.subrange(0, i + 1).drop_last() =~= stakes@.subrange(0, i as int));
            assert(withdraw_power_sums(stakes@.subrange(0, (i + 1) as int), current_date) is Some);
        }
        // Calculate the number of days the stake has been active
        let days_active = (current_date - stake.stake_timestamp) / SECONDS_PER_DAY;
        // If stake is younger than 60 days, calculate its power
        let power: u128 = if days_active < 60 { days_active as u128 } else { 60 };
        // Add the weighted power to the sum
        weighted_sum = weighted_sum + power * stake.stake as u128;
        // Accumulate the total weight
        total_weight = total_weight + 60 * stake.stake as u128;
        i = i + 1;
    }
    proof {
        assert(stakes@.subrange(0, n as int) =~= stakes@);
    }
    if total_weight > 0 {
        Decimal::from_ratio(weighted_sum as i128, total_weight as i128)
    } else {
        Decimal::zero()
    }
}

/// Sums over a prefix are defined when those over the whole list are.
proof fn lemma_sums_prefix_defined(stakes: Seq<Stake>, now: u64, n: nat)
    requires
        n == stakes.len(),
        withdraw_power_sums(stakes, now) is Some,
    ensures
        forall|k: nat| k <= n ==> (#[trigger] withdraw_power_sums(stakes.subrange(0, k as int), now)) is Some,
    decreases n,
{
    assert(stakes.subrange(0, n as int) =~= stakes);
    if n > 0 {
        let shorter = stakes.drop_last();
        lemma_sums_prefix_defined(shorter, now, (n - 1) as nat);
        assert forall|k: nat| k <= n implies (#[trigger] withdraw_power_sums(stakes.subrange(0, k as int), now)) is Some by {
            if k < n {
                assert(stakes.subrange(0, k as int) =~= shorter.subrange(0, k as int));
            }
        }
    }
}

} // verus!

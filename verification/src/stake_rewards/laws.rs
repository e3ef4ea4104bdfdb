//! What the average staking power of a staker's bonds keeps.
use vstd::prelude::*;

use super::distribution::{withdraw_power_spec, withdraw_power_sums, SECONDS_PER_DAY};
use super::storage::Stake;
use crate::decimal::{ratio_atomics, DECIMAL_FRACTIONAL};

verus! {

/// The weighted sum never exceeds the total weight.
proof fn lemma_sums_bounded(stakes: Seq<Stake>, now: u64)
    requires
        withdraw_power_sums(stakes, now) is Some,
    ensures
        0 <= withdraw_power_sums(stakes, now).unwrap().0 <= withdraw_power_sums(stakes, now).unwrap().1,
    decreases stakes.len(),
{
    if stakes.len() > 0 {
        lemma_sums_bounded(stakes.drop_last(), now);
        let s = stakes.last();
        let days = (now - s.stake_timestamp) / (SECONDS_PER_DAY as int);
        let power = if days < 60 { days } else { 60 };
        let amount = (s.stake as u128) as int;
        assert(0 <= power <= 60);
        assert(0 <= power * amount <= 60 * amount) by (nonlinear_arith)
            requires
                0 <= power <= 60,
                0 <= amount,
        ;
    }
}

/// Later, the total weight is the same and the weighted sum is no smaller.
proof fn lemma_sums_grow(stakes: Seq<Stake>, now1: u64, now2: u64)
    requires
        now1 <= now2,
        withdraw_power_sums(stakes, now1) is Some,
        withdraw_power_sums(stakes, now2) is Some,
    ensures
        withdraw_power_sums(stakes, now1).unwrap().1 == withdraw_power_sums(stakes, now2).unwrap().1,
        withdraw_power_sums(stakes, now1).unwrap().0 <= withdraw_power_sums(stakes, now2).unwrap().0,
    decreases stakes.len(),
{
    if stakes.len() > 0 {
        lemma_sums_grow(stakes.drop_last(), now1, now2);
        let s = stakes.last();
        let d1 = (now1 - s.stake_timestamp) / (SECONDS_PER_DAY as int);
        let d2 = (now2 - s.stake_timestamp) / (SECONDS_PER_DAY as int);
        vstd::arithmetic::div_mod::lemma_div_is_ordered(
            now1 - s.stake_timestamp,
            now2 - s.stake_timestamp,
            SECONDS_PER_DAY as int,
        );
        let p1 = if d1 < 60 { d1 } else { 60 };
        let p2 = if d2 < 60 { d2 } else { 60 };
        let amount = (s.stake as u128) as int;
        assert(p1 * amount <= p2 * amount) by (nonlinear_arith)
            requires
                p1 <= p2,
                0 <= amount,
        ;
    }
}

/// The average staking power lies between nothing and one, where the total
/// weight of the bonds (`60` times their sum) fits in an `i128`.
pub proof fn lemma_withdraw_power_in_unit(stakes: Seq<Stake>, now: u64)
    requires
        withdraw_power_spec(stakes, now) is Some,
        withdraw_power_sums(stakes, now).unwrap().1 <= i128::MAX,
    ensures
        0 <= withdraw_power_spec(stakes, now).unwrap() <= DECIMAL_FRACTIONAL,
{
    lemma_sums_bounded(stakes, now);
    let (w, t) = withdraw_power_sums(stakes, now).unwrap();
    if t > 0 {
        assert(((w as u128) as i128) as int == w);
        assert(((t as u128) as i128) as int == t);
        let f = DECIMAL_FRACTIONAL as int;
        assert(0 <= (w * f) / t <= f) by (nonlinear_arith)
            requires
                0 <= w <= t,
                0 < t,
                f > 0,
        {
            vstd::arithmetic::div_mod::lemma_div_is_ordered(w * f, t * f, t);
            vstd::arithmetic::div_mod::lemma_div_multiples_vanish(f, t);
        }
        assert(ratio_atomics(w, t) == (w * f) / t || w == 0);
    }
}

/// The average staking power does not decrease as time passes, where the
/// total weight of the bonds fits in an `i128`.
pub proof fn lemma_withdraw_power_grows(stakes: Seq<Stake>, now1: u64, now2: u64)
    requires
        now1 <= now2,
        withdraw_power_spec(stakes, now1) is Some,
        withdraw_power_spec(stakes, now2) is Some,
        withdraw_power_sums(stakes, now1).unwrap().1 <= i128::MAX,
    ensures
        withdraw_power_spec(stakes, now1).unwrap() <= withdraw_power_spec(stakes, now2).unwrap(),
{
    lemma_sums_bounded(stakes, now1);
    lemma_sums_bounded(stakes, now2);
    lemma_sums_grow(stakes, now1, now2);
    let (w1, t) = withdraw_power_sums(stakes, now1).unwrap();
    let w2 = withdraw_power_sums(stakes, now2).unwrap().0;
    if t > 0 {
        assert(((w1 as u128) as i128) as int == w1);
        assert(((w2 as u128) as i128) as int == w2);
        assert(((t as u128) as i128) as int == t);
        let f = DECIMAL_FRACTIONAL as int;
        assert(w1 * f <= w2 * f) by (nonlinear_arith)
            requires
                w1 <= w2,
                f > 0,
        ;
        vstd::arithmetic::div_mod::lemma_div_is_ordered(w1 * f, w2 * f, t);
        assert(w1 * f >= 0) by (nonlinear_arith)
            requires
                w1 >= 0,
                f > 0,
        ;
    }
}

} // verus!

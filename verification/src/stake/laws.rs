//! What the staking decisions keep across calls.
use vstd::prelude::*;

use super::contract::{adjustment_spec, distribute_spec, funding_curve, is_bond, withdraw_spec, POINTS_SCALE, POINTS_WRAP};
use crate::curve::{combined, curve_value_spec, has_time, piecewise_value_spec, scan_from, steps_of, Curve, Step};
use super::distribution::{bond_reward_spec, day_rewards_spec, pending_spec};
use super::storage::Stake;
use crate::decimal::in_i128;
use crate::stake_rewards::distribution::{standard_power, withdrawable_defined, withdrawable_spec, Distribution, WithdrawAdjustment};

verus! {

/// Unbonding the bond just made gives the staker back the bonds they had,
/// up to the order of equal bonds, and exactly those bonds when no equal
/// bond was there before.
pub proof fn lemma_unbond_after_bond(stakes: Seq<Stake>, bond: Stake, i: int)
    requires
        0 <= i < stakes.len() + 1,
        is_bond(stakes.push(bond)[i], bond.stake, bond.stake_timestamp),
        forall|k: int| 0 <= k < i ==> !is_bond(#[trigger] stakes.push(bond)[k], bond.stake, bond.stake_timestamp),
    ensures
        stakes.push(bond).remove(i).to_multiset() == stakes.to_multiset(),
        !stakes.contains(bond) ==> stakes.push(bond).remove(i) == stakes,
{
    broadcast use vstd::seq_lib::to_multiset_build, vstd::seq_lib::to_multiset_remove;
    let s = stakes.push(bond);
    if i == stakes.len() {
        assert(s.remove(i) =~= stakes);
    } else {
        assert(s[i] == bond);
        assert(stakes[i] == bond);
        assert(s.remove(i) =~= stakes.remove(i).push(bond));
        assert(stakes.remove(i).push(bond).to_multiset() =~= stakes.remove(i).to_multiset().insert(bond));
        assert(stakes.remove(i).to_multiset() =~= stakes.to_multiset().remove(stakes[i]));
        assert(stakes.to_multiset().count(bond) > 0) by {
            vstd::seq_lib::to_multiset_contains(stakes, bond);
            assert(stakes.contains(bond));
        }
        assert(stakes.to_multiset().remove(bond).insert(bond) =~= stakes.to_multiset());
    }
}

/// Correcting a staker's points when their stake changes leaves what they
/// can withdraw right then as it was: the new power's extra points are
/// taken back by the correction.
pub proof fn lemma_stake_change_keeps_rewards(
    min_bond: int,
    d: Distribution,
    a: WithdrawAdjustment,
    old_total: int,
    new_total: int,
)
    requires
        min_bond > 0,
        adjustment_spec(min_bond, d, a, old_total, new_total) is Some,
        withdrawable_defined(old_total, d, a, min_bond),
        withdrawable_defined(new_total, d, adjustment_spec(min_bond, d, a, old_total, new_total).unwrap(), min_bond),
        d.shares_per_point <= i128::MAX,
        d.shares_per_point * standard_power(min_bond, old_total) <= i128::MAX,
        d.shares_per_point * standard_power(min_bond, new_total) <= i128::MAX,
    ensures
        withdrawable_spec(new_total, d, adjustment_spec(min_bond, d, a, old_total, new_total).unwrap(), min_bond)
            == withdrawable_spec(old_total, d, a, min_bond),
{
    let a2 = adjustment_spec(min_bond, d, a, old_total, new_total).unwrap();
    let op = standard_power(min_bond, old_total);
    let np = standard_power(min_bond, new_total);
    let spp = d.shares_per_point as int;
    assert(op >= 0 && np >= 0) by {
        crate::stake_rewards::distribution::lemma_standard_power_nonneg(min_bond, old_total);
        crate::stake_rewards::distribution::lemma_standard_power_nonneg(min_bond, new_total);
    }
    assert(spp * np - spp * (np - op) == spp * op) by (nonlinear_arith);
    assert(spp * op >= 0 && spp * np >= 0) by (nonlinear_arith)
        requires spp >= 0, op >= 0, np >= 0;
}

/// Distributing shares out everything that is neither withdrawable yet nor
/// locked in the reward curve: afterwards the tokens not yet withdrawable
/// are exactly the locked ones.
pub proof fn lemma_distribute_leaves_locked(d: Distribution, balance: i128, locked: u128, power: u128)
    requires
        distribute_spec(d, balance, locked, power) is Ok,
    ensures
        (balance as u128) - distribute_spec(d, balance, locked, power).unwrap().withdrawable_total == locked,
{
}

/// `distributed_total - withdrawable_total` is what stakers have withdrawn:
/// distributing keeps it.
pub proof fn lemma_distribute_keeps_withdrawn(d: Distribution, balance: i128, locked: u128, power: u128)
    requires
        distribute_spec(d, balance, locked, power) is Ok,
    ensures
        ({
            let d2 = distribute_spec(d, balance, locked, power).unwrap();
            d2.distributed_total - d2.withdrawable_total == d.distributed_total - d.withdrawable_total
        }),
{
}

/// ... and a withdrawal raises it by exactly what the staker withdrew.
pub proof fn lemma_withdraw_counts_withdrawn(d: Distribution, a: WithdrawAdjustment, reward_amount: u128)
    requires
        withdraw_spec(d, a, reward_amount) is Ok,
    ensures
        ({
            let (d2, a2) = withdraw_spec(d, a, reward_amount).unwrap();
            &&& (d2.distributed_total - d2.withdrawable_total) - (d.distributed_total - d.withdrawable_total)
                == a2.withdrawn_rewards - a.withdrawn_rewards
            &&& a2.withdrawn_rewards - a.withdrawn_rewards == reward_amount
        }),
{
}

/// A staker who withdraws all they can withdraw has nothing left to
/// withdraw until the next distribution.
pub proof fn lemma_withdraw_all_leaves_nothing(total_staked: int, d: Distribution, a: WithdrawAdjustment, min_bond: int)
    requires
        withdrawable_defined(total_staked, d, a, min_bond),
        withdraw_spec(d, a, withdrawable_spec(total_staked, d, a, min_bond) as u128) is Ok,
    ensures
        ({
            let (d2, a2) = withdraw_spec(d, a, withdrawable_spec(total_staked, d, a, min_bond) as u128).unwrap();
            withdrawable_defined(total_staked, d2, a2, min_bond) && withdrawable_spec(total_staked, d2, a2, min_bond) == 0
        }),
{
}

/// The points of a distribution are split without loss: the increase of the
/// shares per point times the rewards power, plus the new leftover, is the
/// amount shifted into points plus the old leftover. It fails only where the
/// remainder does not fit the leftover's 64 bits.
pub proof fn lemma_distribute_keeps_points(d: Distribution, balance: i128, locked: u128, power: u128)
    requires
        distribute_spec(d, balance, locked, power) is Ok,
        ({
            let amount = (balance as u128) - d.withdrawable_total - locked;
            let points = (amount % (POINTS_WRAP as int)) * (POINTS_SCALE as int) + d.shares_leftover;
            amount != 0 && points % (power as int) <= u64::MAX
        }),
    ensures
        ({
            let amount = (balance as u128) - d.withdrawable_total - locked;
            let points = (amount % (POINTS_WRAP as int)) * (POINTS_SCALE as int) + d.shares_leftover;
            let d2 = distribute_spec(d, balance, locked, power).unwrap();
            (d2.shares_per_point - d.shares_per_point) * power + d2.shares_leftover == points
        }),
{
    let amount = (balance as u128) - d.withdrawable_total - locked;
    let points = (amount % (POINTS_WRAP as int)) * (POINTS_SCALE as int) + d.shares_leftover;
    assert(power > 0);
    vstd::arithmetic::div_mod::lemma_fundamental_div_mod(points, power as int);
    assert((points / (power as int)) * (power as int) == (power as int) * (points / (power as int))) by (nonlinear_arith);
}

/// A staker who has just claimed at `now` has nothing pending until a later
/// day is rewarded.
pub proof fn lemma_nothing_pending_after_claim(rewards: Seq<(u64, u128)>, totals: Seq<(u64, u128)>, stakes: Seq<Stake>, now: u64)
    ensures
        pending_spec(rewards, totals, stakes, now, now) == Some(0int),
    decreases rewards.len(),
{
    if rewards.len() > 0 {
        lemma_nothing_pending_after_claim(rewards.drop_last(), totals, stakes, now);
    }
}

/// A funding's curve locks nothing once its start and its end have passed:
/// every funded token has become distributable.
pub proof fn lemma_funding_releases_all(start_time: u64, token_amount: i128, end_time: u64, t: u64)
    requires
        t >= start_time,
        t > end_time,
    ensures
        curve_value_spec(funding_curve(start_time, token_amount, end_time), t) == Some(0int),
{
}

/// Whether the times of `s` increase strictly.
pub open spec fn steps_sorted(s: Seq<Step>) -> bool {
    forall|i: int, j: int| 0 <= i < j < s.len() ==> s[i].time < s[j].time
}

/// Scanning sorted steps for a time at or after the last one ends there.
proof fn lemma_scan_reaches_last(s: Seq<Step>, j: nat, x: u64)
    requires
        j < s.len(),
        forall|k: int| j <= k < s.len() - 1 ==> s[k].time < x,
    ensures
        scan_from(s, j, x) == s.len() - 1,
    decreases s.len() - j,
{
    if j + 1 < s.len() {
        lemma_scan_reaches_last(s, j + 1, x);
    }
}

/// At or after its last time, a sorted step curve holds its last value.
proof fn lemma_value_after_last(s: Seq<Step>, x: u64)
    requires
        steps_sorted(s),
        s.len() > 0,
        x >= s.last().time,
    ensures
        piecewise_value_spec(s, x) == Some(s.last().value as int),
{
    assert forall|k: int| 0 <= k < s.len() - 1 implies s[k].time < x by {
        assert(s[k].time < s[s.len() - 1].time);
    }
    lemma_scan_reaches_last(s, 0, x);
    if s.len() > 1 {
        assert(s[s.len() - 2].time < s[s.len() - 1].time);
    }
}

/// Once a funding has ended, the curve it was added onto locks exactly what
/// the previous curve locks: the funded tokens have all become
/// distributable. This holds for a previous curve with sorted times, at a
/// time past all of them.
pub proof fn lemma_funded_curve_releases_funding(
    previous: Curve,
    start_time: u64,
    token_amount: i128,
    end_time: u64,
    c: Curve,
    t: u64,
)
    requires
        combined(previous, funding_curve(start_time, token_amount, end_time), Some(c)),
        start_time < end_time < t,
        steps_sorted(steps_of(previous)),
        forall|i: int| 0 <= i < steps_of(previous).len() ==> #[trigger] steps_of(previous)[i].time < t,
    ensures
        curve_value_spec(c, t) == curve_value_spec(previous, t),
{
    let new = funding_curve(start_time, token_amount, end_time);
    let b = steps_of(new);
    assert(steps_sorted(b));
    match previous {
        Curve::Constant(_) => {},
        _ => {
            let a = steps_of(previous);
            let q = match c {
                Curve::PiecewiseLinear(p) => p.steps@,
                _ => Seq::empty(),
            };
            assert(q.len() > 0) by {
                assert(has_time(b, end_time)) by {
                    assert(b[1].time == end_time);
                }
            }
            let last = q.len() - 1;
            let big_t = q[last].time;
            assert(has_time(a, big_t) || has_time(b, big_t)) by {
                assert(has_time(q, big_t)) by {
                    assert(q[last].time == big_t);
                }
            }
            assert(big_t < t) by {
                if has_time(a, big_t) {
                    let i = choose|i: int| 0 <= i < a.len() && a[i].time == big_t;
                    assert(a[i].time < t);
                } else {
                    let i = choose|i: int| 0 <= i < b.len() && b[i].time == big_t;
                }
            }
            // every time of the sum is a time of one of the two curves, so before `t`
            assert(q[last].time < t);
            lemma_value_after_last(q, t);
            // the sum's last time is at or after the last times of both curves
            assert(piecewise_value_spec(a, big_t) is Some);
            assert(a.len() > 0);
            assert(big_t >= a.last().time) by {
                assert(has_time(q, a.last().time)) by {
                    assert(has_time(a, a.last().time)) by {
                        assert(a[a.len() - 1].time == a.last().time);
                    }
                }
                let i = choose|i: int| 0 <= i < q.len() && q[i].time == a.last().time;
                if i < last {
                    assert(q[i].time < q[last].time);
                }
            }
            assert(big_t >= b.last().time) by {
                assert(has_time(q, end_time)) by {
                    assert(b[1].time == end_time);
                }
                let i = choose|i: int| 0 <= i < q.len() && q[i].time == end_time;
                if i < last {
                    assert(q[i].time < q[last].time);
                }
            }
            lemma_value_after_last(a, big_t);
            lemma_value_after_last(b, big_t);
            lemma_value_after_last(a, t);
            assert(a.last().time < t) by {
                assert(a[a.len() - 1].time < t);
            }
        },
    }
}

/// A bond earns nothing for a reward day before it was made (its share of
/// the day's reward is still computed first, and overflowing it traps).
pub proof fn lemma_no_reward_before_the_bond(s: Stake, day: u64, daily_reward: u128, total_staked: u128)
    requires
        day < s.stake_timestamp,
        (s.stake as u128) * daily_reward <= u128::MAX,
    ensures
        bond_reward_spec(s, day, daily_reward, total_staked) == Some(0int),
{
}

/// A reward day before all of a staker's bonds adds nothing to what they
/// are owed, where no bond's share of the day's reward overflows.
pub proof fn lemma_day_before_all_bonds_adds_nothing(
    stakes: Seq<Stake>,
    day: u64,
    daily_reward: u128,
    total_staked: u128,
    acc: int,
)
    requires
        in_i128(acc),
        forall|i: int| 0 <= i < stakes.len() ==> day < #[trigger] stakes[i].stake_timestamp,
        forall|i: int| 0 <= i < stakes.len() ==> (#[trigger] stakes[i].stake as u128) * daily_reward <= u128::MAX,
    ensures
        day_rewards_spec(stakes, day, daily_reward, total_staked, acc) == Some(acc),
    decreases stakes.len(),
{
    if stakes.len() > 0 {
        let rest = stakes.drop_last();
        assert forall|i: int| 0 <= i < rest.len() implies day < #[trigger] rest[i].stake_timestamp by {
            assert(rest[i] == stakes[i]);
        }
        assert forall|i: int| 0 <= i < rest.len() implies (#[trigger] rest[i].stake as u128) * daily_reward <= u128::MAX by {
            assert(rest[i] == stakes[i]);
        }
        lemma_day_before_all_bonds_adds_nothing(rest, day, daily_reward, total_staked, acc);
        let last = stakes.last();
        assert(day < stakes[stakes.len() - 1].stake_timestamp);
        assert((stakes[stakes.len() - 1].stake as u128) * daily_reward <= u128::MAX);
        lemma_no_reward_before_the_bond(last, day, daily_reward, total_staked);
    }
}

} // verus!

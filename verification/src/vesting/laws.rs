//! What the vesting decisions promise across calls and over time.
use vstd::prelude::*;

use super::contract::{available_spec, create_schedules_spec, schedules_spec};
use super::storage::VestingSchedule;
use super::error::ContractError;
use super::utils::vesting_schedule_spec;
use crate::curve::{curve_end_spec, curve_value_spec, scan_from, times_ordered, Curve, Step};

verus! {

/// Once a claim has taken what was released, nothing more can be claimed
/// at the same time: a second claim is refused.
pub proof fn lemma_second_claim_finds_nothing(balance: u128, schedule: Curve, now: u64)
    requires
        available_spec(balance, schedule, now) matches Ok(v) && v > 0,
    ensures
        available_spec((balance - available_spec(balance, schedule, now).unwrap()) as u128, schedule, now)
            == Ok::<int, ContractError>(0),
{
}

/// Scanning steps for a time after all of them ends at the last step.
proof fn lemma_scan_past_end(steps: Seq<Step>, j: nat, x: u64)
    requires
        j < steps.len(),
        forall|k: int| j <= k < steps.len() ==> steps[k].time < x,
    ensures
        scan_from(steps, j, x) == steps.len() - 1,
    decreases steps.len() - j,
{
    if j + 1 < steps.len() {
        lemma_scan_past_end(steps, j + 1, x);
    }
}

/// Once its last point has passed, a valid schedule locks nothing: all it
/// vests can be claimed.
pub proof fn lemma_valid_schedule_releases_all(schedule: Curve, t: u64)
    requires
        vesting_schedule_spec(schedule) is Ok,
        curve_end_spec(schedule) matches Some(end) && t > end,
    ensures
        curve_value_spec(schedule, t) == Some(0int),
{
    match schedule {
        Curve::PiecewiseLinear(p) => {
            let steps = p.steps@;
            assert(times_ordered(steps));
            assert forall|k: int| 0 <= k < steps.len() implies steps[k].time < t by {
                if k < steps.len() - 1 {
                    assert(steps[k].time < steps[steps.len() - 1].time);
                }
            }
            lemma_scan_past_end(steps, 0, t);
        },
        _ => {},
    }
}

/// Before a valid schedule starts, all it vests is still locked.
pub proof fn lemma_valid_schedule_locks_all_at_start(schedule: Curve, t: u64)
    requires
        vesting_schedule_spec(schedule) is Ok,
        match schedule {
            Curve::SaturatingLinear(s) => t <= s.min_x,
            Curve::PiecewiseLinear(p) => t <= p.steps@[0].time,
            Curve::Constant(_) => true,
        },
    ensures
        curve_value_spec(schedule, t) == Some(vesting_schedule_spec(schedule).unwrap() as int),
{
    match schedule {
        Curve::SaturatingLinear(s) => {
            if t == s.min_x {
                assert((s.min_y - s.max_y) * (t - s.min_x) == 0) by (nonlinear_arith)
                    requires t == s.min_x;
            }
        },
        _ => {},
    }
}

/// The sum of the amounts.
pub open spec fn amounts_sum(a: Seq<u128>) -> int
    decreases a.len(),
{
    if a.len() == 0 {
        0
    } else {
        amounts_sum(a.drop_last()) + a.last()
    }
}

/// Creating schedules that are accepted lists, for each schedule in order,
/// the amount it vests, and asks the admin for the sum of those amounts.
pub proof fn lemma_schedules_total_is_the_sum(s: Seq<VestingSchedule>, max_complexity: u32)
    requires
        schedules_spec(s, max_complexity) is Ok,
    ensures
        ({
            let (amounts, total) = schedules_spec(s, max_complexity).unwrap();
            &&& amounts.len() == s.len()
            &&& forall|i: int| 0 <= i < s.len() ==> vesting_schedule_spec(#[trigger] s[i].curve) == Ok::<u128, ContractError>(amounts[i])
            &&& total == amounts_sum(amounts)
        }),
    decreases s.len(),
{
    if s.len() > 0 {
        let rest = s.drop_last();
        lemma_schedules_total_is_the_sum(rest, max_complexity);
        let (amounts, total) = schedules_spec(s, max_complexity).unwrap();
        let (ra, rt) = schedules_spec(rest, max_complexity).unwrap();
        assert(amounts.drop_last() =~= ra);
        assert forall|i: int| 0 <= i < s.len() implies vesting_schedule_spec(#[trigger] s[i].curve) == Ok::<u128, ContractError>(amounts[i]) by {
            if i < s.len() - 1 {
                assert(s[i] == rest[i]);
                assert(vesting_schedule_spec(rest[i].curve) == Ok::<u128, ContractError>(ra[i]));
            }
        }
    }
}

/// The same holds of the schedules a creation accepts.
pub proof fn lemma_created_total_is_the_sum(s: Seq<VestingSchedule>, max_complexity: u32)
    requires
        create_schedules_spec(s, max_complexity) is Ok,
    ensures
        ({
            let (amounts, total) = create_schedules_spec(s, max_complexity).unwrap();
            &&& amounts.len() == s.len()
            &&& forall|i: int| 0 <= i < s.len() ==> vesting_schedule_spec(#[trigger] s[i].curve) == Ok::<u128, ContractError>(amounts[i])
            &&& total == amounts_sum(amounts)
        }),
{
    lemma_schedules_total_is_the_sum(s, max_complexity);
}

} // verus!

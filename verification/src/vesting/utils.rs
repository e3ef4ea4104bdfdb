//! Checks of the schedules a vesting is created with.
use vstd::prelude::*;

use super::error::ContractError;
use super::storage::VestingSchedule;
use crate::address::AddressKey;
use crate::curve::{piecewise_validate_spec, values_decreasing, Curve};

verus! {

/// Whether no two schedules go to the same recipient.
pub open spec fn recipients_distinct(accounts: Seq<VestingSchedule>) -> bool {
    forall|i: int, j: int| 0 <= i < j < accounts.len() ==> accounts[i].recipient != accounts[j].recipient
}

/// Refuses schedules of which two go to the same recipient.
pub fn check_duplications(accounts: &Vec<VestingSchedule>) -> (r: Result<(), ContractError>)
    ensures
        r == if recipients_distinct(accounts@) {
            Ok::<(), ContractError>(())
        } else {
            Err(ContractError::DuplicateInitialBalanceAddresses)
        },
{
    let mut addresses: Vec<AddressKey> = Vec::new();
    let mut i: usize = 0;
    while i < accounts.len()
        invariant
            0 <= i <= accounts@.len(),
            addresses@.len() == i,
            forall|k: int| 0 <= k < i ==> addresses@[k] == #[trigger] accounts@[k].recipient,
            recipients_distinct(accounts@.subrange(0, i as int)),
        decreases accounts@.len() - i,
    {
        let recipient = accounts[i].recipient;
        let mut j: usize = 0;
        while j < addresses.len()
            invariant
                0 <= j <= addresses@.len(),
                addresses@.len() == i,
                i < accounts@.len(),
                recipient == accounts@[i as int].recipient,
                forall|k: int| 0 <= k < i ==> addresses@[k] == #[trigger] accounts@[k].recipient,
                forall|k: int| 0 <= k < j ==> addresses@[k] != recipient,
            decreases addresses@.len() - j,
        {
            if addresses[j].same(&recipient) {
                assert(accounts@[j as int].recipient == accounts@[i as int].recipient);
                return Err(ContractError::DuplicateInitialBalanceAddresses);
            }
            j = j + 1;
        }
        addresses.push(recipient);
        proof {
            let s = accounts@.subrange(0, i + 1);
            assert forall|a: int, b: int| 0 <= a < b < s.len() implies s[a].recipient != s[b].recipient by {
                if b < i {
                    assert(accounts@.subrange(0, i as int)[a] == s[a]);
                    assert(accounts@.subrange(0, i as int)[b] == s[b]);
                } else {
                    assert(addresses@[a] == accounts@[a].recipient);
                }
            }
        }
        i = i + 1;
    }
    assert(accounts@.subrange(0, accounts@.len() as int) =~= accounts@);
    Ok(())
}

/// What a schedule vests: it must be a decreasing curve that is not
/// constant and ends at zero; the amount vested is where it starts.
pub open spec fn vesting_schedule_spec(schedule: Curve) -> Result<u128, ContractError> {
    match schedule {
        Curve::Constant(_) => Err(ContractError::CurveConstant),
        Curve::SaturatingLinear(s) => if s.max_x <= s.min_x || s.max_y > s.min_y {
            Err(ContractError::CurveError)
        } else if s.max_y != 0 {
            Err(ContractError::NeverFullyVested)
        } else {
            Ok(s.min_y)
        },
        Curve::PiecewiseLinear(p) => if piecewise_validate_spec(p.steps@) is Err || !values_decreasing(p.steps@) {
            Err(ContractError::CurveError)
        } else if p.steps@.last().value != 0 {
            Err(ContractError::NeverFullyVested)
        } else {
            Ok(p.steps@[0].value)
        },
    }
}

/// Checks that the schedule vests everything eventually, and returns the
/// amount it vests.
pub fn validate_vesting_schedule(schedule: &Curve) -> (r: Result<u128, ContractError>)
    ensures
        r == vesting_schedule_spec(*schedule),
{
    match schedule.validate_monotonic_decreasing() {
        Ok(()) => {},
        Err(e) => return Err(ContractError::from(e)),
    }
    match schedule {
        Curve::Constant(_) => Err(ContractError::CurveConstant),
        Curve::SaturatingLinear(sl) => {
            // the curve must come down to nothing
            let (low, high) = (sl.max_y, sl.min_y);
            if low != 0 {
                Err(ContractError::NeverFullyVested)
            } else {
                Ok(high)
            }
        },
        Curve::PiecewiseLinear(pl) => {
            // the last step must hold nothing
            match pl.end_value() {
                Some(v) => {
                    if v != 0 {
                        return Err(ContractError::NeverFullyVested);
                    }
                },
                None => return Err(ContractError::CurveError),
            }
            // the amount vested is the value of the first step
            match pl.first_value() {
                Some(v) => Ok(v),
                None => Err(ContractError::CurveError),
            }
        },
    }
}

} // verus!

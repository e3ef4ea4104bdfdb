//! The vesting contract's entry points as decisions over its stored state:
//! the contract shell reads storage, token balances and the ledger time,
//! hands the values here, and performs the transfers these decisions call
//! for.
use vstd::prelude::*;

use super::error::ContractError;
use super::storage::{MinterInfo, VestingSchedule};
use super::utils::{check_duplications, recipients_distinct, validate_vesting_schedule, vesting_schedule_spec};
use crate::utils::AdminChangeError;
use crate::address::AddressKey;
use crate::curve::{curve_size_spec, curve_value_spec, Curve};

verus! {

/// The token vesting contract.
pub struct Vesting;

/// Refuses a second initialization.
pub fn check_initialize(initialized: bool) -> (r: Result<(), ContractError>)
    ensures
        r == if initialized { Err(ContractError::AlreadyInitialized) } else { Ok::<(), ContractError>(()) },
{
    if initialized {
        return Err(ContractError::AlreadyInitialized);
    }
    Ok(())
}

/// The amounts the schedules vest, in order, and their total; a schedule
/// that is not valid or has `max_complexity` points or more is refused, as
/// is a total beyond `u128`.
pub open spec fn schedules_spec(s: Seq<VestingSchedule>, max_complexity: u32) -> Result<(Seq<u128>, int), ContractError>
    decreases s.len(),
{
    if s.len() == 0 {
        Ok((Seq::empty(), 0))
    } else {
        match schedules_spec(s.drop_last(), max_complexity) {
            Err(e) => Err(e),
            Ok((amounts, total)) => match vesting_schedule_spec(s.last().curve) {
                Err(e) => Err(e),
                Ok(v) => if max_complexity <= curve_size_spec(s.last().curve) {
                    Err(ContractError::VestingComplexityTooHigh)
                } else if total + v > u128::MAX {
                    Err(ContractError::ContractMathError)
                } else {
                    Ok((amounts.push(v), total + v))
                },
            },
        }
    }
}

/// What creating the schedules gives: refused when there are none or two
/// share a recipient; otherwise what `schedules_spec` says.
pub open spec fn create_schedules_spec(s: Seq<VestingSchedule>, max_complexity: u32) -> Result<(Seq<u128>, int), ContractError> {
    if s.len() == 0 {
        Err(ContractError::MissingBalance)
    } else if !recipients_distinct(s) {
        Err(ContractError::DuplicateInitialBalanceAddresses)
    } else {
        schedules_spec(s, max_complexity)
    }
}

proof fn lemma_schedules_err_extends(s: Seq<VestingSchedule>, k: int, max_complexity: u32)
    requires
        0 <= k <= s.len(),
        schedules_spec(s.subrange(0, k), max_complexity) is Err,
    ensures
        schedules_spec(s, max_complexity) == schedules_spec(s.subrange(0, k), max_complexity),
    decreases s.len() - k,
{
    if k < s.len() {
        assert(s.subrange(0, k + 1).drop_last() =~= s.subrange(0, k));
        lemma_schedules_err_extends(s, k + 1, max_complexity);
    } else {
        assert(s.subrange(0, k) =~= s);
    }
}

/// The amount each schedule vests, and the total the admin must provide.
pub fn plan_vesting_schedules(schedules: &Vec<VestingSchedule>, max_complexity: u32) -> (r: Result<(Vec<u128>, u128), ContractError>)
    ensures
        match create_schedules_spec(schedules@, max_complexity) {
            Ok((amounts, total)) => r matches Ok((a, t)) && a@ == amounts && t == total,
            Err(e) => r == Err::<(Vec<u128>, u128), ContractError>(e),
        },
{
    if schedules.len() == 0 {
        return Err(ContractError::MissingBalance);
    }
    check_duplications(schedules)?;
    let mut amounts: Vec<u128> = Vec::new();
    let mut total_vested_amount: u128 = 0;
    let mut i: usize = 0;
    assert(schedules@.subrange(0, 0) =~= Seq::<VestingSchedule>::empty());
    while i < schedules.len()
        invariant
            0 <= i <= schedules@.len(),
            schedules@.len() > 0,
            recipients_distinct(schedules@),
            schedules_spec(schedules@.subrange(0, i as int), max_complexity)
                == Ok::<(Seq<u128>, int), ContractError>((amounts@, total_vested_amount as int)),
        decreases schedules@.len() - i,
    {
        proof {
            assert(schedules@.subrange(0, i + 1).drop_last() =~= schedules@.subrange(0, i as int));
        }
        let curve = &schedules[i].curve;
        let vested_amount = match validate_vesting_schedule(curve) {
            Ok(v) => v,
            Err(e) => {
                proof {
                    lemma_schedules_err_extends(schedules@, i + 1, max_complexity);
                }
                return Err(e);
            },
        };
        let size: usize = match curve {
            Curve::Constant(_) => 1,
            Curve::SaturatingLinear(_) => 2,
            Curve::PiecewiseLinear(p) => p.steps.len(),
        };
        if max_complexity as usize <= size {
            proof {
                lemma_schedules_err_extends(schedules@, i + 1, max_complexity);
            }
            return Err(ContractError::VestingComplexityTooHigh);
        }
        total_vested_amount = match total_vested_amount.checked_add(vested_amount) {
            Some(t) => t,
            None => {
                proof {
                    lemma_schedules_err_extends(schedules@, i + 1, max_complexity);
                }
                return Err(ContractError::ContractMathError);
            },
        };
        amounts.push(vested_amount);
        i = i + 1;
    }
    assert(schedules@.subrange(0, schedules@.len() as int) =~= schedules@);
    Ok((amounts, total_vested_amount))
}

/// Refuses to start the schedules when the admin holds fewer tokens than they vest.
pub fn check_admin_balance(admin_balance: i128, total_vested: u128) -> (r: Result<i128, ContractError>)
    requires
        total_vested <= i128::MAX,
    ensures
        r == if admin_balance < total_vested {
            Err(ContractError::NoEnoughtTokensToStart)
        } else {
            Ok::<i128, ContractError>(total_vested as i128)
        },
{
    let total = total_vested as i128;
    if admin_balance < total {
        return Err(ContractError::NoEnoughtTokensToStart);
    }
    Ok(total)
}

/// What a schedule holding `balance` lets its recipient claim at `now`: the
/// balance less what the curve still locks.
pub open spec fn available_spec(balance: u128, schedule: Curve, now: u64) -> Result<int, ContractError> {
    match curve_value_spec(schedule, now) {
        None => Err(ContractError::ContractMathError),
        Some(locked) => if balance < locked || balance - locked > i128::MAX {
            Err(ContractError::ContractMathError)
        } else {
            Ok(balance - locked)
        },
    }
}

/// The tokens the recipient of a schedule holding `balance` can claim at `now`.
pub fn available_to_claim(balance: u128, schedule: &Curve, now: u64) -> (r: Result<i128, ContractError>)
    ensures
        match available_spec(balance, *schedule, now) {
            Ok(v) => r == Ok::<i128, ContractError>(v as i128),
            Err(e) => r == Err::<i128, ContractError>(e),
        },
{
    let locked = match schedule.checked_value(now) {
        Some(v) => v,
        None => return Err(ContractError::ContractMathError),
    };
    let difference = match balance.checked_sub(locked) {
        Some(d) => d,
        None => return Err(ContractError::ContractMathError),
    };
    if difference > i128::MAX as u128 {
        return Err(ContractError::ContractMathError);
    }
    Ok(difference as i128)
}

/// A claim at `now` on a schedule holding `balance`: the tokens paid out,
/// and the balance left, which is what the curve still locks. Refused when
/// nothing can be claimed.
pub fn plan_claim(balance: u128, schedule: &Curve, now: u64) -> (r: Result<(i128, u128), ContractError>)
    ensures
        match available_spec(balance, *schedule, now) {
            Err(e) => r == Err::<(i128, u128), ContractError>(e),
            Ok(v) => if v <= 0 {
                r == Err::<(i128, u128), ContractError>(ContractError::NeverFullyVested)
            } else {
                r == Ok::<(i128, u128), ContractError>((v as i128, (balance - v) as u128))
            },
        },
{
    let available = available_to_claim(balance, schedule, now)?;
    if available <= 0 {
        return Err(ContractError::NeverFullyVested);
    }
    let vested = match schedule.checked_value(now) {
        Some(v) => v,
        None => return Err(ContractError::ContractMathError),
    };
    // what the recipient may take out
    let sender_liquid = match balance.checked_sub(vested) {
        Some(v) => v,
        None => return Err(ContractError::NotEnoughBalance),
    };
    if sender_liquid < available as u128 {
        return Err(ContractError::CantMoveVestingTokens);
    }
    let updated_balance = match balance.checked_sub(available as u128) {
        Some(v) => v,
        None => return Err(ContractError::ContractMathError),
    };
    Ok((available, updated_balance))
}

/// Refuses to burn nothing.
pub fn check_burn(amount: u128) -> (r: Result<(), ContractError>)
    ensures
        r == if amount == 0 { Err(ContractError::InvalidBurnAmount) } else { Ok::<(), ContractError>(()) },
{
    if amount == 0 {
        return Err(ContractError::InvalidBurnAmount);
    }
    Ok(())
}

/// The minter after `sender` mints `amount`: only the minter may mint, a
/// positive amount, within their remaining capacity.
pub fn plan_mint(sender: AddressKey, amount: i128, minter: Option<MinterInfo>) -> (r: Result<MinterInfo, ContractError>)
    ensures
        r == if amount <= 0 {
            Err(ContractError::InvalidMintAmount)
        } else {
            match minter {
                None => Err(ContractError::MinterNotFound),
                Some(m) => if sender != m.address {
                    Err(ContractError::NotAuthorized)
                } else if m.mint_capacity < amount {
                    Err(ContractError::NotEnoughCapacity)
                } else {
                    Ok::<MinterInfo, ContractError>(MinterInfo { address: m.address, mint_capacity: (m.mint_capacity - amount) as u128 })
                },
            }
        },
{
    if amount <= 0 {
        return Err(ContractError::InvalidMintAmount);
    }
    let minter = match minter {
        Some(m) => m,
        None => return Err(ContractError::MinterNotFound),
    };
    if !sender.same(&minter.address) {
        return Err(ContractError::NotAuthorized);
    }
    let minter_remainder = match minter.mint_capacity.checked_sub(amount as u128) {
        Some(v) => v,
        None => return Err(ContractError::NotEnoughCapacity),
    };
    Ok(MinterInfo { address: minter.address, mint_capacity: minter_remainder })
}

/// The minter after `sender` hands minting to `new_minter`: the current
/// minter may, or the admin while there is none; the capacity stays.
pub fn plan_update_minter(
    sender: AddressKey,
    new_minter: AddressKey,
    current: Option<MinterInfo>,
    admin: AddressKey,
) -> (r: Result<MinterInfo, ContractError>)
    ensures
        r == match current {
            Some(m) => if sender == m.address {
                Ok::<MinterInfo, ContractError>(MinterInfo { address: new_minter, mint_capacity: m.mint_capacity })
            } else {
                Err(ContractError::NotAuthorized)
            },
            None => if sender == admin {
                Ok::<MinterInfo, ContractError>(MinterInfo { address: new_minter, mint_capacity: 0 })
            } else {
                Err(ContractError::NotAuthorized)
            },
        },
{
    let is_authorized = match current {
        Some(m) => sender.same(&m.address),
        None => sender.same(&admin),
    };
    if !is_authorized {
        return Err(ContractError::NotAuthorized);
    }
    let mint_capacity = match current {
        Some(m) => m.mint_capacity,
        None => 0,
    };
    Ok(MinterInfo { address: new_minter, mint_capacity })
}

/// The minter after the admin sets its capacity to `new_capacity`.
pub fn plan_update_minter_capacity(
    sender: AddressKey,
    admin: AddressKey,
    current: Option<MinterInfo>,
    new_capacity: u128,
) -> (r: Result<MinterInfo, ContractError>)
    ensures
        r == if sender != admin {
            Err(ContractError::NotAuthorized)
        } else {
            match current {
                Some(m) => Ok::<MinterInfo, ContractError>(MinterInfo { address: m.address, mint_capacity: new_capacity }),
                None => Err(ContractError::MinterNotFound),
            }
        },
{
    if !sender.same(&admin) {
        return Err(ContractError::NotAuthorized);
    }
    match current {
        Some(m) => Ok(MinterInfo { address: m.address, mint_capacity: new_capacity }),
        None => Err(ContractError::MinterNotFound),
    }
}

/// The error the contract reports for a refused admin hand-over step.
pub fn admin_error(e: AdminChangeError) -> (r: ContractError)
    ensures
        r == match e {
            AdminChangeError::SameAdmin => ContractError::SameAdmin,
            AdminChangeError::NoAdminChangeInPlace => ContractError::NoAdminChangeInPlace,
            AdminChangeError::AdminChangeExpired => ContractError::AdminChangeExpired,
        },
{
    match e {
        AdminChangeError::SameAdmin => ContractError::SameAdmin,
        AdminChangeError::NoAdminChangeInPlace => ContractError::NoAdminChangeInPlace,
        AdminChangeError::AdminChangeExpired => ContractError::AdminChangeExpired,
    }
}

} // verus!

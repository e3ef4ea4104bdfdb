//! Shared helpers of the contracts: integer conversions, basis-point and
//! amount validation, and the two-step admin hand-over.
use vstd::prelude::*;

use crate::address::AddressKey;

verus! {

/// The lowest valid basis-point value.
pub const MIN_BPS: i64 = 0;

/// The highest valid basis-point value (100%).
pub const MAX_BPS: i64 = 10_000;

/// A non-negative `i128` as `u128`.
pub fn convert_i128_to_u128(input: i128) -> (r: u128)
    requires
        input >= 0,
    ensures
        r == input,
{
    input as u128
}

/// A `u128` no larger than `i128::MAX` as `i128`.
pub fn convert_u128_to_i128(input: u128) -> (r: i128)
    requires
        input <= i128::MAX,
    ensures
        r == input,
{
    input as i128
}

pub open spec fn bps_valid(value: i64) -> bool {
    MIN_BPS <= value <= MAX_BPS
}

/// Whether `value` lies in `0..=10_000` basis points.
pub fn validate_bps(value: i64) -> (r: bool)
    ensures
        r == bps_valid(value),
{
    MIN_BPS <= value && value <= MAX_BPS
}

/// Whether an amount given by a caller is positive.
pub fn validate_int_parameter(value: i128) -> (r: bool)
    ensures
        r == (value > 0),
{
    value > 0
}

/// A requested change of admin: who is to take over, and until when the
/// request may be accepted.
#[derive(Clone, Copy, Debug, PartialEq, Eq, Structural)]
pub struct AdminChange {
    pub new_admin: AddressKey,
    pub time_limit: Option<u64>,
}

/// Why an admin hand-over step is refused.
#[derive(Clone, Copy, Debug, PartialEq, Eq, Structural)]
pub enum AdminChangeError {
    SameAdmin,
    NoAdminChangeInPlace,
    AdminChangeExpired,
}

/// The admin of a contract and the hand-over it has pending, if any.
#[derive(Clone, Copy, Debug, PartialEq, Eq, Structural)]
pub struct AdminState {
    pub admin: AddressKey,
    pub pending: Option<AdminChange>,
}

/// What proposing `new_admin` gives: the current admin cannot propose
/// themselves; otherwise the proposal replaces any pending one.
pub open spec fn propose_spec(s: AdminState, new_admin: AddressKey, time_limit: Option<u64>) -> (Result<AddressKey, AdminChangeError>, AdminState) {
    if s.admin == new_admin {
        (Err(AdminChangeError::SameAdmin), s)
    } else {
        (Ok(new_admin), AdminState { admin: s.admin, pending: Some(AdminChange { new_admin, time_limit }) })
    }
}

/// What withdrawing the pending proposal gives.
pub open spec fn revoke_spec(s: AdminState) -> (Result<(), AdminChangeError>, AdminState) {
    if s.pending is None {
        (Err(AdminChangeError::NoAdminChangeInPlace), s)
    } else {
        (Ok(()), AdminState { admin: s.admin, pending: None })
    }
}

/// What accepting the pending proposal at `now` gives: refused without a
/// proposal or once its time limit lies before `now`.
pub open spec fn accept_spec(s: AdminState, now: u64) -> (Result<AddressKey, AdminChangeError>, AdminState) {
    match s.pending {
        None => (Err(AdminChangeError::NoAdminChangeInPlace), s),
        Some(change) => if change.time_limit matches Some(limit) && now > limit {
            (Err(AdminChangeError::AdminChangeExpired), s)
        } else {
            (Ok(change.new_admin), AdminState { admin: change.new_admin, pending: None })
        },
    }
}

impl AdminState {
    /// The current admin proposes `new_admin`, to be accepted before
    /// `time_limit` passes if one is given; a pending proposal is replaced.
    pub fn propose_admin(&mut self, new_admin: AddressKey, time_limit: Option<u64>) -> (r: Result<AddressKey, AdminChangeError>)
        ensures
            (r, *final(self)) == propose_spec(*old(self), new_admin, time_limit),
    {
        if self.admin == new_admin {
            return Err(AdminChangeError::SameAdmin);
        }
        self.pending = Some(AdminChange { new_admin, time_limit });
        Ok(new_admin)
    }

    /// The current admin withdraws the pending proposal.
    pub fn revoke_admin_change(&mut self) -> (r: Result<(), AdminChangeError>)
        ensures
            (r, *final(self)) == revoke_spec(*old(self)),
    {
        if self.pending.is_none() {
            return Err(AdminChangeError::NoAdminChangeInPlace);
        }
        self.pending = None;
        Ok(())
    }

    /// The proposed admin accepts at time `now`; a proposal whose time limit
    /// lies before `now` has expired.
    pub fn accept_admin(&mut self, now: u64) -> (r: Result<AddressKey, AdminChangeError>)
        ensures
            (r, *final(self)) == accept_spec(*old(self), now),
    {
        let change = match self.pending {
            None => return Err(AdminChangeError::NoAdminChangeInPlace),
            Some(c) => c,
        };
        if let Some(time_limit) = change.time_limit {
            if now > time_limit {
                return Err(AdminChangeError::AdminChangeExpired);
            }
        }
        self.pending = None;
        self.admin = change.new_admin;
        Ok(change.new_admin)
    }
}

/// A proposal accepted in time hands the contract to the proposed admin
/// and leaves nothing pending.
pub proof fn lemma_propose_then_accept(s: AdminState, new_admin: AddressKey, time_limit: Option<u64>, now: u64)
    requires
        s.admin != new_admin,
        time_limit matches Some(limit) ==> now <= limit,
    ensures
        ({
            let (proposed, s1) = propose_spec(s, new_admin, time_limit);
            let (accepted, s2) = accept_spec(s1, now);
            &&& proposed == Ok::<AddressKey, AdminChangeError>(new_admin)
            &&& accepted == Ok::<AddressKey, AdminChangeError>(new_admin)
            &&& s2 == AdminState { admin: new_admin, pending: None }
        }),
{
}

/// A withdrawn proposal can no longer be accepted, and the admin stays.
pub proof fn lemma_revoked_cannot_be_accepted(s: AdminState, new_admin: AddressKey, time_limit: Option<u64>, now: u64)
    requires
        s.admin != new_admin,
    ensures
        ({
            let (_, s1) = propose_spec(s, new_admin, time_limit);
            let (revoked, s2) = revoke_spec(s1);
            let (accepted, s3) = accept_spec(s2, now);
            &&& revoked == Ok::<(), AdminChangeError>(())
            &&& accepted == Err::<AddressKey, AdminChangeError>(AdminChangeError::NoAdminChangeInPlace)
            &&& s3 == AdminState { admin: s.admin, pending: None }
        }),
{
}

/// A proposal accepted after its time limit is refused and changes nothing.
pub proof fn lemma_expired_proposal_refused(s: AdminState, now: u64)
    requires
        s.pending matches Some(change) && change.time_limit matches Some(limit) && now > limit,
    ensures
        accept_spec(s, now) == (Err::<AddressKey, AdminChangeError>(AdminChangeError::AdminChangeExpired), s),
{
}

} // verus!

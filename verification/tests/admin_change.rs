use phoenix_dex::address::AddressKey;
use phoenix_dex::pool_stable::contract::admin_error as pool_admin_error;
use phoenix_dex::pool_stable::error::ContractError as PoolError;
use phoenix_dex::stake::contract::admin_error as stake_admin_error;
use phoenix_dex::stake::error::ContractError as StakeError;
use phoenix_dex::trader::contract::admin_error as trader_admin_error;
use phoenix_dex::trader::error::ContractError as TraderError;
use phoenix_dex::utils::{AdminChange, AdminChangeError, AdminState};
use phoenix_dex::vesting::contract::admin_error as vesting_admin_error;
use phoenix_dex::vesting::error::ContractError as VestingError;

fn address(n: u64) -> AddressKey {
    AddressKey { is_contract: false, w0: n, w1: n, w2: 0, w3: 0 }
}

fn fresh(admin: AddressKey) -> AdminState {
    AdminState { admin, pending: None }
}

#[test]
fn admin_change_propose_admin() {
    let admin = address(1);
    let new_admin = address(2);
    let mut state = fresh(admin);
    let result = state.propose_admin(new_admin, None);
    assert_eq!(result, Ok(new_admin));
    let pending = state.pending.unwrap();
    assert_eq!(pending.new_admin, new_admin);
    assert_eq!(pending.time_limit, None);
    assert_eq!(state.admin, admin);
}

#[test]
fn admin_change_replace_admin_fails_when_new_admin_is_same_as_current() {
    let admin = address(1);
    let mut state = fresh(admin);
    let result = state.propose_admin(admin, None);
    assert_eq!(result, Err(AdminChangeError::SameAdmin));
    assert_eq!(result.map_err(pool_admin_error), Err(PoolError::SameAdmin));
    assert_eq!(result.map_err(stake_admin_error), Err(StakeError::SameAdmin));
    assert_eq!(result.map_err(trader_admin_error), Err(TraderError::SameAdmin));
    assert_eq!(result.map_err(vesting_admin_error), Err(VestingError::SameAdmin));
    assert_eq!(state, fresh(admin));
}

#[test]
fn admin_change_accept_admin_successfully() {
    let new_admin = address(2);
    let mut state = fresh(address(1));
    state.propose_admin(new_admin, None).unwrap();
    let result = state.accept_admin(0);
    assert_eq!(result, Ok(new_admin));
    assert!(state.pending.is_none());
    assert_eq!(state.admin, new_admin);
}

#[test]
fn admin_change_accept_admin_fails_when_no_pending_admin() {
    let mut state = fresh(address(1));
    let result = state.accept_admin(0);
    assert_eq!(result, Err(AdminChangeError::NoAdminChangeInPlace));
    assert_eq!(result.map_err(pool_admin_error), Err(PoolError::NoAdminChangeInPlace));
    assert_eq!(result.map_err(trader_admin_error), Err(TraderError::NoAdminChangeInPlace));
}

#[test]
fn admin_change_accept_admin_fails_when_time_limit_expired() {
    let new_admin = address(2);
    let mut state = fresh(address(1));
    let time_limit = 1000u64;
    state.propose_admin(new_admin, Some(time_limit)).unwrap();
    let result = state.accept_admin(time_limit + 100);
    assert_eq!(result, Err(AdminChangeError::AdminChangeExpired));
    assert_eq!(result.map_err(pool_admin_error), Err(PoolError::AdminChangeExpired));
    assert_eq!(result.map_err(stake_admin_error), Err(StakeError::AdminChangeExpired));
    assert_eq!(result.map_err(vesting_admin_error), Err(VestingError::AdminChangeExpired));
    assert_eq!(state.admin, address(1));
}

#[test]
fn admin_change_accept_admin_successfully_with_time_limit() {
    let new_admin = address(2);
    let mut state = fresh(address(1));
    let time_limit = 1500u64;
    state.propose_admin(new_admin, Some(time_limit)).unwrap();
    let result = state.accept_admin(1_000);
    assert_eq!(result, Ok(new_admin));
    assert!(state.pending.is_none());
}

#[test]
fn admin_change_accept_admin_successfully_on_time_limit() {
    let new_admin = address(2);
    let mut state = fresh(address(1));
    let time_limit = 1500u64;
    state.propose_admin(new_admin, Some(time_limit)).unwrap();
    let result = state.accept_admin(time_limit);
    assert_eq!(result, Ok(new_admin));
    assert!(state.pending.is_none());
}

#[test]
fn admin_change_propose_admin_then_revoke() {
    let mut state = fresh(address(1));
    state.propose_admin(address(2), None).unwrap();
    assert_eq!(state.revoke_admin_change(), Ok(()));
    assert!(state.pending.is_none());
    assert_eq!(state.admin, address(1));
}

#[test]
fn admin_change_revoke_admin_should_fail_when_no_admin_change_in_place() {
    let mut state = fresh(address(1));
    let result = state.revoke_admin_change();
    assert_eq!(result, Err(AdminChangeError::NoAdminChangeInPlace));
    assert_eq!(result.map_err(stake_admin_error), Err(StakeError::NoAdminChangeInPlace));
}

#[test]
fn revoked_proposal_cannot_be_accepted() {
    let mut state = fresh(address(1));
    state.propose_admin(address(2), Some(50)).unwrap();
    state.revoke_admin_change().unwrap();
    assert_eq!(state.accept_admin(10), Err(AdminChangeError::NoAdminChangeInPlace));
    assert_eq!(state, fresh(address(1)));
}

#[test]
fn new_proposal_replaces_pending_one() {
    let mut state = fresh(address(1));
    state.propose_admin(address(2), Some(50)).unwrap();
    state.propose_admin(address(3), None).unwrap();
    assert_eq!(state.pending, Some(AdminChange { new_admin: address(3), time_limit: None }));
    assert_eq!(state.accept_admin(1_000), Ok(address(3)));
}

use phoenix_dex::address::AddressKey;
use phoenix_dex::curve::{Curve, CurveError, PiecewiseLinear, SaturatingLinear, Step};
use phoenix_dex::decimal::Decimal;
use phoenix_dex::pool_stable::contract::assert_max_spread;
use phoenix_dex::pool_stable::error::ContractError as PoolError;
use phoenix_dex::pool_stable::math::compute_current_amp;
use phoenix_dex::pool_stable::storage::AmplifierParameters;
use phoenix_dex::stake::contract::remove_stake;
use phoenix_dex::stake::error::ContractError as StakeError;
use phoenix_dex::stake::storage::Stake;
use phoenix_dex::stake_rewards::distribution::{
    calculate_annualized_payout, update_rewards, Distribution, WithdrawAdjustment, SECONDS_PER_YEAR,
};
use phoenix_dex::vesting::error::ContractError as VestingError;
use phoenix_dex::vesting::storage::VestingSchedule;
use phoenix_dex::vesting::utils::{check_duplications, validate_vesting_schedule};

fn address(n: u64) -> AddressKey {
    AddressKey { is_contract: false, w0: n, w1: 0, w2: 0, w3: 0 }
}

#[test]
fn test_assert_max_spread_success() {
    assert_eq!(assert_max_spread(Decimal::percent(10), 100_001, 1), Ok(()));
}

#[test]
fn test_assert_max_spread_fail_max_spread_exceeded() {
    let max_spread = Decimal::percent(10);
    assert_eq!(assert_max_spread(max_spread, 100, 35), Err(PoolError::SpreadExceedsLimit));
}

#[test]
fn test_assert_max_spread_success_no_belief_price() {
    assert_eq!(assert_max_spread(Decimal::percent(10), 10, 1), Ok(()));
}

#[test]
fn test_assert_max_spread_fail_no_belief_price_max_spread_exceeded() {
    assert_eq!(assert_max_spread(Decimal::percent(10), 10, 2), Err(PoolError::SpreadExceedsLimit));
}

#[test]
fn test_compute_current_amp() {
    let params1 = AmplifierParameters { init_amp: 100, init_amp_time: 0, next_amp: 200, next_amp_time: 100 };
    assert_eq!(compute_current_amp(0, &params1), 100);
    let params2 = AmplifierParameters { init_amp: 100, init_amp_time: 0, next_amp: 200, next_amp_time: 100 };
    assert_eq!(compute_current_amp(100, &params2), 200);
    let params3 = AmplifierParameters { init_amp: 200, init_amp_time: 0, next_amp: 100, next_amp_time: 100 };
    assert_eq!(compute_current_amp(50, &params3), 150);
}

fn three_stakes() -> Vec<Stake> {
    vec![
        Stake { stake: 100, stake_timestamp: 1 },
        Stake { stake: 200, stake_timestamp: 2 },
        Stake { stake: 150, stake_timestamp: 3 },
    ]
}

#[test]
fn contract_test_remove_stake_success() {
    let mut stakes = three_stakes();
    assert_eq!(remove_stake(&mut stakes, 200, 2), Ok(()));
    assert_eq!(
        stakes,
        vec![Stake { stake: 100, stake_timestamp: 1 }, Stake { stake: 150, stake_timestamp: 3 }]
    );
}

#[test]
fn contract_test_remove_stake_not_found_case1() {
    let mut stakes = three_stakes();
    assert_eq!(remove_stake(&mut stakes, 100, 2), Err(StakeError::StakeNotFound));
    assert_eq!(stakes, three_stakes());
}

#[test]
fn contract_test_remove_stake_not_found_case2() {
    let mut stakes = three_stakes();
    assert_eq!(remove_stake(&mut stakes, 200, 1), Err(StakeError::StakeNotFound));
    assert_eq!(stakes, three_stakes());
}

#[test]
fn contract_test_remove_stake_not_found_case3() {
    let mut stakes = three_stakes();
    assert_eq!(remove_stake(&mut stakes, 150, 1), Err(StakeError::StakeNotFound));
    assert_eq!(stakes, three_stakes());
}

#[test]
fn update_rewards_should_return_early_if_old_power_is_same_as_new_power() {
    let distribution = Distribution::default();
    let mut adjustment = WithdrawAdjustment::default();
    update_rewards(&mut adjustment, &distribution, 100, 100);
    assert_eq!(adjustment, WithdrawAdjustment::default());
}

#[test]
fn calculate_annualized_payout_should_return_zero_when_last_timestamp_in_the_past() {
    let reward_curve = Some(Curve::SaturatingLinear(SaturatingLinear { min_x: 15, min_y: 1, max_x: 60, max_y: 120 }));
    let result = calculate_annualized_payout(reward_curve, 121);
    assert_eq!(result, Decimal::zero());
}

#[test]
fn calculate_annualized_payout_extrapolating_an_year() {
    let reward_curve = Some(Curve::SaturatingLinear(SaturatingLinear {
        min_x: 15,
        min_y: 1,
        max_x: SECONDS_PER_YEAR + 60,
        max_y: (SECONDS_PER_YEAR + 120) as u128,
    }));
    let result = calculate_annualized_payout(reward_curve, SECONDS_PER_YEAR + 1);
    assert_eq!(result, Decimal::new(16_856_291_324_745_762_711_864_406_779_661));
}

#[test]
fn calculate_annualized_payout_should_return_zero_no_end_in_curve() {
    let reward_curve = Some(Curve::Constant(10));
    let result = calculate_annualized_payout(reward_curve, 121);
    assert_eq!(result, Decimal::zero());
}

#[test]
fn calculate_annualized_payout_should_return_zero_no_curve() {
    let reward_curve = None::<Curve>;
    let result = calculate_annualized_payout(reward_curve, 121);
    assert_eq!(result, Decimal::zero());
}

#[test]
fn test_from_curve_error() {
    let curve_error = CurveError::TooComplex;
    let contract_error = VestingError::from(curve_error);
    assert_eq!(contract_error, VestingError::CurveError);
}

#[test]
fn check_duplications_works() {
    let accounts = vec![
        VestingSchedule { recipient: address(1), curve: Curve::Constant(1) },
        VestingSchedule { recipient: address(2), curve: Curve::Constant(1) },
        VestingSchedule { recipient: address(3), curve: Curve::Constant(1) },
    ];
    assert_eq!(check_duplications(&accounts), Ok(()));
}

#[test]
fn check_duplications_should_panic() {
    let accounts = vec![
        VestingSchedule { recipient: address(7), curve: Curve::Constant(1) },
        VestingSchedule { recipient: address(8), curve: Curve::Constant(1) },
        VestingSchedule { recipient: address(7), curve: Curve::Constant(1) },
    ];
    assert_eq!(check_duplications(&accounts), Err(VestingError::DuplicateInitialBalanceAddresses));
}

#[test]
fn validate_saturating_linear_vesting() {
    let curve = Curve::SaturatingLinear(SaturatingLinear { min_x: 15, min_y: 120, max_x: 60, max_y: 0 });
    assert_eq!(validate_vesting_schedule(&curve), Ok(120));
}

#[test]
fn validate_piecewise_linear_vesting() {
    let curve = Curve::PiecewiseLinear(PiecewiseLinear {
        steps: vec![Step { time: 60, value: 120 }, Step { time: 120, value: 0 }],
    });
    assert_eq!(validate_vesting_schedule(&curve), Ok(120));
}

#[test]
fn saturating_linear_schedule_fails_when_not_fully_vested() {
    let curve = Curve::SaturatingLinear(SaturatingLinear { min_x: 15, min_y: 120, max_x: 60, max_y: 1 });
    assert_eq!(validate_vesting_schedule(&curve), Err(VestingError::NeverFullyVested));
}

#[test]
fn piecewise_linear_schedule_fails_when_not_fully_vested() {
    let curve = Curve::PiecewiseLinear(PiecewiseLinear {
        steps: vec![Step { time: 60, value: 120 }, Step { time: 120, value: 10 }],
    });
    assert_eq!(validate_vesting_schedule(&curve), Err(VestingError::NeverFullyVested));
}

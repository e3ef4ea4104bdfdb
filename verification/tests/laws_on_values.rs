use phoenix_dex::address::AddressKey;
use phoenix_dex::curve::{Curve, PiecewiseLinear, SaturatingLinear, Step};
use phoenix_dex::decimal::{checked_mul_div, mul_div_floor, Decimal, DecimalError};
use phoenix_dex::pool_stable::contract::{plan_swap, simulate_swap};
use phoenix_dex::pool_stable::error::ContractError as PoolError;
use phoenix_dex::pool_stable::storage::{AmplifierParameters, Config, PairType};
use phoenix_dex::stake::contract::{
    bond_stake, distribute, stake_change_adjustment, staker_withdrawable, unbond_stake, withdraw,
};
use phoenix_dex::stake::error::ContractError as StakeError;
use phoenix_dex::stake::storage::{BondingInfo, Stake};
use phoenix_dex::stake::utils::OptionUint;
use phoenix_dex::stake_rewards::distribution::{Distribution, WithdrawAdjustment};
use phoenix_dex::trader::error::ContractError as TraderError;
use phoenix_dex::vesting::contract::available_to_claim;
use phoenix_dex::vesting::error::ContractError as VestingError;
use phoenix_dex::sample::contract::{Sample, VestingInfo as SampleInfo};
use phoenix_dex::sample::error::ContractError as SampleError;
use soroban_sdk::Env;

fn token(n: u64) -> AddressKey {
    AddressKey { is_contract: true, w0: n, w1: 0, w2: 0, w3: 0 }
}

#[test]
fn unbonding_the_new_bond_restores_the_bonds() {
    let before = bond_stake(BondingInfo::empty(), 10, 500, 1).unwrap();
    let before = bond_stake(before, 10, 700, 2).unwrap();
    let bonded = bond_stake(before.clone(), 10, 500, 3).unwrap();
    let after = unbond_stake(bonded, 500, 3).unwrap();
    assert_eq!(after, before);
    // with an equal bond already there, the earlier one goes: same bonds, another order
    let bonded = bond_stake(before.clone(), 10, 500, 1).unwrap();
    let after = unbond_stake(bonded, 500, 1).unwrap();
    assert_eq!(after.stakes, vec![Stake { stake: 700, stake_timestamp: 2 }, Stake { stake: 500, stake_timestamp: 1 }]);
    assert_eq!(after.total_stake, before.total_stake);
}

#[test]
fn stake_change_keeps_what_can_be_withdrawn() {
    let d = Distribution { shares_per_point: 1 + (5 << 32), ..Distribution::default() };
    let a = WithdrawAdjustment::default();
    let before = staker_withdrawable(1_000, 3_000, &d, &a).unwrap();
    let a2 = stake_change_adjustment(1_000, &d, a, 3_000, 9_000).unwrap();
    let after = staker_withdrawable(1_000, 9_000, &d, &a2).unwrap();
    assert_eq!(before, 15);
    assert_eq!(after, before);
}

#[test]
fn distribute_leaves_the_locked_amount_and_keeps_points() {
    let d = Distribution { shares_per_point: 1, shares_leftover: 3, withdrawable_total: 100, ..Distribution::default() };
    let d2 = distribute(&d, 1_100, 400, 7).unwrap();
    assert_eq!(1_100 - d2.withdrawable_total, 400);
    assert_eq!(d2.distributed_total - d2.withdrawable_total, d.distributed_total as i128 as u128 - d.withdrawable_total);
    let points: u128 = (600u128 << 32) + 3;
    assert_eq!((d2.shares_per_point - d.shares_per_point) * 7 + d2.shares_leftover as u128, points);
}

#[test]
fn withdrawing_everything_leaves_nothing() {
    let d = Distribution { shares_per_point: 1 + (2 << 32), withdrawable_total: 100, ..Distribution::default() };
    let a = WithdrawAdjustment { shares_correction: -1, withdrawn_rewards: 0 };
    let all = staker_withdrawable(1_000, 2_000, &d, &a).unwrap();
    assert_eq!(all, 4);
    let (d2, a2) = withdraw(&d, &a, all).unwrap();
    assert_eq!(staker_withdrawable(1_000, 2_000, &d2, &a2), Ok(0));
    assert_eq!(d2.withdrawable_total, 96);
    assert_eq!(withdraw(&d2, &a2, 1_000), Err(StakeError::ContractMathError));
}

#[test]
fn a_swap_hands_out_what_its_simulation_reports() {
    let env = Env::default();
    let config = Config {
        token_a: token(1),
        token_b: token(2),
        share_token: token(3),
        stake_contract: token(4),
        pool_type: PairType::Stable,
        total_fee_bps: 250,
        fee_recipient: token(5),
        max_allowed_slippage_bps: 5_000,
        default_slippage_bps: 100,
        max_allowed_spread_bps: 10_000,
    };
    let amp = AmplifierParameters { init_amp: 1_000, init_amp_time: 0, next_amp: 2_000, next_amp_time: 1_000 };
    let plan = plan_swap(&env, &config, token(2), 77_777, None, None, None, 3_000_000, 2_000_000, 7, 7, &amp, 500, 7).unwrap();
    let sim = simulate_swap(&env, &config, token(2), 77_777, 3_000_000, 2_000_000, 7, 7, &amp, 500, 7).unwrap();
    assert!(!plan.offer_is_a);
    assert_eq!((plan.return_amount, plan.spread_amount, plan.commission_amount), (sim.ask_amount, sim.spread_amount, sim.commission_amount));
    assert_eq!(sim.total_return, sim.ask_amount + sim.commission_amount + sim.spread_amount);
    let refused = plan_swap(&env, &config, token(2), 77_777, None, None, Some(100), 3_000_000, 2_000_000, 7, 7, &amp, 500, 7);
    assert_eq!(refused, Err(PoolError::UserDeclinesPoolFee));
}

#[test]
fn a_valid_schedule_locks_all_then_releases_all() {
    let steps = vec![Step { time: 10, value: 900 }, Step { time: 20, value: 300 }, Step { time: 40, value: 0 }];
    let curve = Curve::PiecewiseLinear(PiecewiseLinear { steps });
    assert_eq!(curve.value(5), 900);
    assert_eq!(curve.value(15), 600);
    assert_eq!(curve.value(30), 150);
    assert_eq!(curve.value(41), 0);
    assert_eq!(available_to_claim(900, &curve, 41), Ok(900));
    assert_eq!(available_to_claim(900, &curve, 10), Ok(0));
    assert_eq!(available_to_claim(100, &curve, 10), Err(VestingError::ContractMathError));
}

#[test]
fn curve_values_stay_within_the_range() {
    let curve = Curve::SaturatingLinear(SaturatingLinear { min_x: 100, min_y: 50, max_x: 200, max_y: 950 });
    assert_eq!(curve.range(), Some((50, 950)));
    for x in [0u64, 100, 101, 150, 199, 200, 1_000] {
        let v = curve.value(x);
        assert!(50 <= v && v <= 950);
    }
    assert_eq!(curve.value(150), 500);
}

#[test]
fn exact_wide_ratios_and_products() {
    assert_eq!(mul_div_floor(u128::MAX, u128::MAX, 1 << 127), None);
    assert_eq!(mul_div_floor(1 << 100, 1 << 100, 1 << 90), Some(1 << 110));
    assert_eq!(mul_div_floor(10, 3, 4), Some(7));
    assert_eq!(checked_mul_div(-7, 3, 2), Some(-10));
    assert_eq!(checked_mul_div(i128::MIN, 1, 1), Some(i128::MIN));
    assert_eq!(checked_mul_div(i128::MIN, -1, 1), None);
    let big = 500_000_000_000_000_000_000_000i128;
    let ratio = Decimal::checked_from_ratio(big, 19_999_999_999_999_999_999_999_000).unwrap();
    assert_eq!(ratio, Decimal(25_000_000_000_000_000));
    assert_eq!(Decimal::mul_int(10_000_000_000_000_000_000_000_000, ratio), 250_000_000_000_000_000_000_000);
    assert_eq!(Decimal::checked_from_ratio(1, 0), Err(DecimalError::DivideByZero));
    assert_eq!(Decimal::checked_from_ratio(i128::MAX, 1), Err(DecimalError::Overflow));
    assert_eq!(Decimal::from_ratio(1, 3), Decimal(333_333_333_333_333_333));
    assert_eq!(Decimal::from_ratio(-1, 3), Decimal(-333_333_333_333_333_333));
    assert_eq!(Decimal::percent(50).mul(Decimal::percent(50)), Decimal::percent(25));
    assert_eq!(Decimal::one().div(Decimal::percent(50)), Decimal::percent(200));
    assert_eq!(Decimal::mul_int(-3, Decimal::percent(50)), -1);
    assert_eq!(Decimal::checked_mul_int(i128::MAX, Decimal::percent(200)), None);
}

#[test]
fn error_codes() {
    assert_eq!(StakeError::StakeNotFound.code(), 509);
    assert_eq!(VestingError::NeverFullyVested.code(), 713);
    assert_eq!(TraderError::OutputTokenInPair.code(), 615);
    assert_eq!(PoolError::SpreadExceedsLimit.code(), 400);
    assert_eq!(SampleError::SupplyOverTheCap.code(), 2);
    assert_eq!(SampleError::from(phoenix_dex::curve::CurveError::NotMonotonic), SampleError::Std);
}

#[test]
fn optional_amounts_round_trip() {
    assert_eq!(OptionUint::from_option(Some(7)).to_option(), Some(7));
    assert_eq!(OptionUint::from_option(None), OptionUint::Nothing);
    assert_eq!(OptionUint::Value(3).to_option(), Some(3));
}

#[test]
fn sample_query() {
    let info = SampleInfo { balance: 5, curve: Curve::Constant(1) };
    assert_eq!(Sample::query(Some(info.clone())), Ok(info));
    assert_eq!(Sample::query(None), Err(SampleError::Std));
}

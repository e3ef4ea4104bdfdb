use phoenix_dex::address::AddressKey;
use phoenix_dex::curve::Curve;
use phoenix_dex::decimal::Decimal;
use phoenix_dex::stake_rewards::distribution::calc_withdraw_power;
use phoenix_dex::stake_rewards::contract::StakingRewards;
use phoenix_dex::stake_rewards::distribution::{Distribution, WithdrawAdjustment};
use phoenix_dex::stake_rewards::storage::{Config, Stake};

fn address(n: u64) -> AddressKey {
    AddressKey { is_contract: false, w0: n, w1: 7, w2: 0, w3: 0 }
}

fn config() -> Config {
    Config {
        staking_contract: address(1),
        reward_token: address(2),
        max_complexity: 10,
        min_reward: 1_000,
        min_bond: 1_000,
    }
}

fn distribution() -> Distribution {
    Distribution { shares_per_point: 1_000, ..StakingRewards::initial_distribution() }
}

#[test]
fn a_new_distribution_starts_at_one_share_per_point() {
    let d = StakingRewards::initial_distribution();
    assert_eq!(d.shares_per_point, 1);
    assert_eq!(d.shares_leftover, 0);
    assert_eq!(d.distributed_total, 0);
    assert_eq!(d.withdrawable_total, 0);
}

#[test]
fn bonding_corrects_the_points_of_the_new_power() {
    let a = WithdrawAdjustment { shares_correction: 0, withdrawn_rewards: 0 };
    let r = StakingRewards::calculate_bond(&config(), &distribution(), a, 0, 2_000).unwrap();
    assert_eq!(r, WithdrawAdjustment { shares_correction: -2_000, withdrawn_rewards: 0 });
    // below the minimum bond the power stays nothing
    let r = StakingRewards::calculate_bond(&config(), &distribution(), a, 0, 999).unwrap();
    assert_eq!(r, a);
    assert_eq!(StakingRewards::calculate_bond(&config(), &distribution(), a, i128::MAX, 1), None);
}

#[test]
fn unbonding_takes_the_last_stake_away() {
    let stakes = vec![Stake { stake: 1_000, stake_timestamp: 0 }, Stake { stake: 2_000, stake_timestamp: 5 }];
    assert_eq!(StakingRewards::unbonded_stake(&stakes), 2_000);
    assert_eq!(StakingRewards::unbonded_stake(&Vec::new()), 0);
    let a = WithdrawAdjustment { shares_correction: -3_000, withdrawn_rewards: 10 };
    let r = StakingRewards::calculate_unbond(&config(), &distribution(), a, &stakes, 3_000).unwrap();
    assert_eq!(r, WithdrawAdjustment { shares_correction: -1_000, withdrawn_rewards: 10 });
    let r = StakingRewards::calculate_unbond(&config(), &distribution(), a, &Vec::new(), 3_000).unwrap();
    assert_eq!(r, a);
}

#[test]
fn withdraw_power_lies_between_nothing_and_one_and_grows() {
    let stakes = vec![Stake { stake: 1_000, stake_timestamp: 0 }];
    assert_eq!(calc_withdraw_power(&stakes, 0), Decimal::zero());
    assert_eq!(calc_withdraw_power(&stakes, 2_592_000), Decimal::percent(50));
    assert_eq!(calc_withdraw_power(&stakes, 5_184_000), Decimal::one());
    assert_eq!(calc_withdraw_power(&stakes, 50_000_000), Decimal::one());
    assert_eq!(calc_withdraw_power(&Vec::new(), 5_184_000), Decimal::zero());
    let mixed = vec![Stake { stake: 1_000, stake_timestamp: 0 }, Stake { stake: 3_000, stake_timestamp: 2_592_000 }];
    let mut last = Decimal::zero();
    for now in [2_592_000u64, 3_000_000, 5_184_000, 7_776_000, 9_000_000] {
        let p = calc_withdraw_power(&mixed, now);
        assert!(last.0 <= p.0 && p.0 <= Decimal::one().0);
        last = p;
    }
    assert_eq!(last, Decimal::one());
}

#[test]
fn a_funding_curve_locks_nothing_after_its_end() {
    let curve = Curve::saturating_linear((100, 50_000), (1_100, 0));
    assert_eq!(curve.value(100), 50_000);
    assert_eq!(curve.value(600), 25_000);
    assert_eq!(curve.value(1_101), 0);
    assert_eq!(curve.value(u64::MAX), 0);
}

use phoenix_dex::address::AddressKey;
use phoenix_dex::curve::{Curve, SaturatingLinear};
use phoenix_dex::stake::contract::{
    bond_stake, check_initialize, create_distribution, distribute, plan_fund_distribution, stake_change_adjustment,
    staker_withdrawable, total_rewards_power, unbond_stake, update_config, withdraw,
};
use phoenix_dex::stake::distribution::{calculate_pending_rewards, History};
use phoenix_dex::stake::error::ContractError;
use phoenix_dex::stake::storage::{
    add_distribution, decrease_total_staked, increase_total_staked, BondingInfo, Config, Stake,
};
use phoenix_dex::stake_rewards::distribution::{Distribution, WithdrawAdjustment};

const ONE_WEEK: u64 = 604800;
const ONE_DAY: u64 = 86400;
const SIXTY_DAYS: u64 = 60 * ONE_DAY;
const MIN_BOND: i128 = 1000;
const MIN_REWARD: i128 = 1000;

fn address(n: u64) -> AddressKey {
    AddressKey { is_contract: false, w0: n, w1: 3, w2: 0, w3: 0 }
}

fn config() -> Config {
    Config {
        lp_token: address(100),
        min_bond: MIN_BOND,
        min_reward: MIN_REWARD,
        manager: address(101),
        owner: address(102),
        max_complexity: 7,
    }
}

/// Bonds and reward histories of the daily-rewards scheme.
struct Staking {
    total_staked: i128,
    rewards: History,
    totals: History,
}

impl Staking {
    fn new() -> Staking {
        Staking { total_staked: 0, rewards: History::new(), totals: History::new() }
    }

    fn bond(&mut self, info: BondingInfo, tokens: i128, now: u64) -> Result<BondingInfo, ContractError> {
        let info = bond_stake(info, MIN_BOND, tokens, now)?;
        self.total_staked = increase_total_staked(self.total_staked, tokens)?;
        Ok(info)
    }

    fn unbond(&mut self, info: BondingInfo, amount: i128, stake_timestamp: u64) -> Result<BondingInfo, ContractError> {
        let info = unbond_stake(info, amount, stake_timestamp)?;
        self.total_staked = decrease_total_staked(self.total_staked, amount)?;
        Ok(info)
    }

    fn distribute(&mut self, now: u64, amount: u128) {
        self.rewards.set(now, amount);
        self.totals.set(now, self.total_staked as u128);
    }

    fn withdraw(&self, info: &mut BondingInfo, now: u64) -> i128 {
        let pending = calculate_pending_rewards(&self.rewards, &self.totals, &info.stakes, info.last_reward_time, now).unwrap();
        info.last_reward_time = now;
        pending
    }
}

#[test]
fn initialize_staking_contract() {
    assert_eq!(check_initialize(false, MIN_BOND, MIN_REWARD, 7), Ok(()));
}

#[test]
fn test_deploying_stake_twice_should_fail() {
    assert_eq!(check_initialize(true, 100, 50, 7), Err(ContractError::AlreadyInitialized));
}

#[test]
fn initialize_staking_contract_should_panic_when_min_bond_invalid() {
    assert_eq!(check_initialize(false, 0, 1_000, 7), Err(ContractError::InvalidMinBond));
}

#[test]
fn initialize_staking_contract_should_panic_when_min_rewards_invalid() {
    assert_eq!(check_initialize(false, 1_000, 0, 7), Err(ContractError::InvalidMinReward));
}

#[test]
fn initialize_staking_contract_should_panic_when_max_complexity_invalid() {
    assert_eq!(check_initialize(false, 1_000, 1_000, 0), Err(ContractError::InvalidMaxComplexity));
}

#[test]
fn bond_too_few() {
    let mut staking = Staking::new();
    assert_eq!(staking.bond(BondingInfo::empty(), 999, 0), Err(ContractError::InvalidBond));
    assert_eq!(staking.total_staked, 0);
}

#[test]
fn bond_simple() {
    let mut staking = Staking::new();
    let info = staking.bond(BondingInfo::empty(), 10_000, ONE_WEEK).unwrap();
    assert_eq!(info.stakes, vec![Stake { stake: 10_000, stake_timestamp: ONE_WEEK }]);
    assert_eq!(info.total_stake, 10_000);
    assert_eq!(staking.total_staked, 10_000);
}

#[test]
fn unbond_simple() {
    let mut staking = Staking::new();
    let user = staking.bond(BondingInfo::empty(), 10_000, ONE_DAY).unwrap();
    let user = staking.bond(user, 10_000, 2 * ONE_DAY).unwrap();
    let user2 = staking.bond(BondingInfo::empty(), 10_000, 2 * ONE_DAY).unwrap();
    let user = staking.bond(user, 15_000, 3 * ONE_DAY).unwrap();
    assert_eq!(user.stakes.len(), 3);
    assert_eq!(staking.total_staked, 45_000);

    let user = staking.unbond(user, 10_000, ONE_DAY + ONE_DAY).unwrap();
    assert_eq!(
        user.stakes,
        vec![Stake { stake: 10_000, stake_timestamp: ONE_DAY }, Stake { stake: 15_000, stake_timestamp: 3 * ONE_DAY }]
    );
    assert_eq!(user.total_stake, 25_000);
    assert_eq!(user2.total_stake, 10_000);
    assert_eq!(staking.total_staked, 35_000);
}

#[test]
fn unbond_wrong_user_stake_not_found() {
    let mut staking = Staking::new();
    let user = staking.bond(BondingInfo::empty(), 10_000, ONE_DAY).unwrap();
    let user = staking.bond(user, 10_000, 2 * ONE_DAY).unwrap();
    let user2 = staking.bond(BondingInfo::empty(), 10_000, 2 * ONE_DAY).unwrap();
    assert_eq!(staking.total_staked, 30_000);
    assert_eq!(staking.unbond(user2, 10_000, ONE_DAY / 2), Err(ContractError::StakeNotFound));
    assert_eq!(staking.total_staked, 30_000);
    assert_eq!(user.total_stake, 20_000);
}

#[test]
fn initializing_contract_sets_total_staked_var() {
    let staking = Staking::new();
    assert_eq!(staking.total_staked, 0);
}

#[test]
fn should_update_config() {
    let new_config = update_config(config(), None, Some(2_000), Some(2_000), None, None, None).unwrap();
    assert_eq!(new_config, Config { min_bond: 2_000, min_reward: 2_000, ..config() });
}

#[test]
fn update_config_refuses_non_positive_values() {
    assert_eq!(update_config(config(), None, Some(0), None, None, None, None), Err(ContractError::InvalidMinBond));
    assert_eq!(update_config(config(), None, None, Some(-1), None, None, None), Err(ContractError::InvalidMinReward));
    assert_eq!(update_config(config(), None, None, None, None, None, Some(0)), Err(ContractError::InvalidMaxComplexity));
}

#[test]
fn add_distribution_and_distribute_reward() {
    let mut staking = Staking::new();
    let mut distributions = Vec::new();
    assert_eq!(add_distribution(&mut distributions, address(200)), Ok(()));
    let mut user = staking.bond(BondingInfo::empty(), 1000, 0).unwrap();
    let reward_amount: u128 = 100_000;
    let mut now = SIXTY_DAYS;
    for _ in 0..60 {
        staking.distribute(now, reward_amount / 60);
        now += ONE_DAY;
    }
    assert_eq!(staking.withdraw(&mut user, now), 99_960);
    assert_eq!(staking.withdraw(&mut user, now), 0);
}

#[test]
fn four_users_with_different_stakes() {
    let mut staking = Staking::new();
    let mut users: Vec<BondingInfo> = Vec::new();
    for stake in [1000, 2000, 3000, 4000] {
        users.push(staking.bond(BondingInfo::empty(), stake, 0).unwrap());
    }
    staking.distribute(SIXTY_DAYS, 100_000);
    let expected = [10_000, 20_000, 30_000, 40_000];
    for (user, expected) in users.iter_mut().zip(expected) {
        assert_eq!(staking.withdraw(user, SIXTY_DAYS), expected);
    }
}

#[test]
fn fund_rewards_without_establishing_distribution() {
    let mut distributions = vec![address(200)];
    assert_eq!(add_distribution(&mut distributions, address(200)), Err(ContractError::DistributionExists));
    assert_eq!(distributions, vec![address(200)]);
}

#[test]
fn multiple_equal_users_with_different_multipliers() {
    let fifteen_days = 15 * ONE_DAY;
    let mut staking = Staking::new();
    let mut users: Vec<BondingInfo> = Vec::new();
    for k in 0..4u64 {
        users.push(staking.bond(BondingInfo::empty(), 10_000, fifteen_days * k).unwrap());
    }
    let now = fifteen_days * 4;
    staking.distribute(now, 1_000_000);
    let expected = [250_000, 187_500, 125_000, 62_500];
    for (user, expected) in users.iter_mut().zip(expected) {
        assert_eq!(staking.withdraw(user, now), expected);
    }
}

#[test]
fn distribute_rewards_daily_multiple_times_different_stakes() {
    let fifteen_days = 15 * ONE_DAY;
    let mut staking = Staking::new();
    let mut users: Vec<BondingInfo> = Vec::new();
    for k in 0..4u64 {
        users.push(staking.bond(BondingInfo::empty(), 10_000, fifteen_days * k).unwrap());
    }
    let mut now = fifteen_days * 4;
    let mut received = [0i128; 4];
    let expected = [
        [250_000, 187_500, 125_000, 62_500],
        [500_000, 379_166, 254_166, 129_166],
        [750_000, 574_999, 387_499, 199_999],
        [1_000_000, 774_999, 524_999, 274_999],
    ];
    for day in expected {
        staking.distribute(now, 1_000_000);
        for (k, user) in users.iter_mut().enumerate() {
            received[k] += staking.withdraw(user, now);
        }
        assert_eq!(received, day);
        now += ONE_DAY;
    }
}

#[test]
fn distribute_rewards_daily_multiple_times_same_stakes() {
    let mut staking = Staking::new();
    let user = staking.bond(BondingInfo::empty(), 1000, 1706968777).unwrap();
    let user2 = staking.bond(BondingInfo::empty(), 2000, 1714741177).unwrap();
    let user3 = staking.bond(BondingInfo::empty(), 3000, 1714741177).unwrap();
    let user4 = staking.bond(BondingInfo::empty(), 4000, 1715741177).unwrap();
    let mut users = [user, user2, user3, user4];
    let mut now = 1715741177 + SIXTY_DAYS;
    let mut received = [0i128; 4];
    for day in 1..=4i128 {
        staking.distribute(now, 1_000_000);
        for (k, user) in users.iter_mut().enumerate() {
            received[k] += staking.withdraw(user, now);
        }
        assert_eq!(received, [100_000 * day, 200_000 * day, 300_000 * day, 400_000 * day]);
        now += ONE_DAY;
    }
}

#[test]
fn nothing_pending_right_after_a_claim() {
    let mut staking = Staking::new();
    let mut user = staking.bond(BondingInfo::empty(), 5_000, 0).unwrap();
    staking.distribute(SIXTY_DAYS, 50_000);
    assert_eq!(staking.withdraw(&mut user, SIXTY_DAYS), 50_000);
    assert_eq!(staking.withdraw(&mut user, SIXTY_DAYS), 0);
}

#[test]
fn history_set_replaces_a_day() {
    let mut history = History::new();
    history.set(20, 5);
    history.set(10, 7);
    history.set(20, 9);
    assert_eq!(history.get(20), Some(9));
    assert_eq!(history.get(10), Some(7));
    assert_eq!(history.get(15), None);
}

#[test]
fn four_users_same_stakes_different_multipliers() {
    let manager = address(101);
    let cfg = config();
    let mut distribution = create_distribution(manager, &cfg).unwrap();
    assert_eq!(create_distribution(address(9), &cfg), Err(ContractError::Unauthorized));
    let mut curve = Curve::Constant(0);

    // four users bond 1000 each; their points are corrected as their power grows
    let mut total_staked: i128 = 0;
    let mut adjustments = Vec::new();
    for _ in 0..4 {
        let adjustment =
            stake_change_adjustment(MIN_BOND, &distribution, WithdrawAdjustment::default(), 0, 1000).unwrap();
        adjustments.push(adjustment);
        total_staked += 1000;
    }

    // fund 1_000_000 released over four days from time zero
    let reward_amount: i128 = 1_000_000;
    curve = plan_fund_distribution(&curve, cfg.max_complexity, cfg.min_reward, 0, 0, ONE_DAY * 4, reward_amount).unwrap();
    assert_eq!(
        curve,
        Curve::SaturatingLinear(SaturatingLinear { min_x: 0, min_y: 1_000_000, max_x: ONE_DAY * 4, max_y: 0 })
    );
    let mut balance: i128 = reward_amount;

    // a day later a quarter is released
    let power = total_rewards_power(MIN_BOND, total_staked).unwrap();
    assert_eq!(power, 4);
    distribution = distribute(&distribution, balance, curve.value(ONE_DAY), power).unwrap();
    let reward = staker_withdrawable(MIN_BOND, 1000, &distribution, &adjustments[0]).unwrap();
    assert_eq!(reward, 62_500);
    let (d, a) = withdraw(&distribution, &adjustments[0], reward).unwrap();
    distribution = d;
    adjustments[0] = a;
    balance -= reward as i128;
    assert_eq!(distribution.distributed_total, 250_000);
    assert_eq!(distribution.withdrawable_total, 187_500);

    // a second later almost nothing more is released
    distribution = distribute(&distribution, balance, curve.value(ONE_DAY + 1), power).unwrap();
    let reward = staker_withdrawable(MIN_BOND, 1000, &distribution, &adjustments[0]).unwrap();
    assert_eq!(reward, 0);
}

#[test]
fn funding_checks_refuse_bad_requests() {
    let curve = Curve::Constant(0);
    assert_eq!(plan_fund_distribution(&curve, 7, MIN_REWARD, 100, 99, 10, 5_000), Err(ContractError::InvalidTime));
    assert_eq!(plan_fund_distribution(&curve, 7, MIN_REWARD, 100, 100, 10, 999), Err(ContractError::MinRewardNotEnough));
    assert_eq!(
        plan_fund_distribution(&curve, 7, MIN_REWARD, 100, 100, u64::MAX, 5_000),
        Err(ContractError::ContractMathError)
    );
}

#[test]
fn funding_while_a_distribution_runs_adds_the_curves() {
    let running = Curve::SaturatingLinear(SaturatingLinear { min_x: 0, min_y: 1_000, max_x: 100, max_y: 0 });
    let combined = plan_fund_distribution(&running, 7, MIN_REWARD, 50, 50, 100, 2_000).unwrap();
    assert_eq!(combined.value(50), 500 + 2_000);
    assert_eq!(combined.value(100), 0 + 1_000);
    assert_eq!(combined.value(150), 0);
    // with a complexity limit of two points the sum is refused
    assert_eq!(plan_fund_distribution(&running, 2, MIN_REWARD, 50, 50, 100, 2_000), Err(ContractError::InvalidMaxComplexity));
    // once the running curve has ended, the new one replaces it
    let replaced = plan_fund_distribution(&running, 2, MIN_REWARD, 101, 101, 100, 2_000).unwrap();
    assert_eq!(replaced, Curve::SaturatingLinear(SaturatingLinear { min_x: 101, min_y: 2_000, max_x: 201, max_y: 0 }));
}

#[test]
fn distribute_refuses_when_balance_is_short() {
    let distribution = Distribution { withdrawable_total: 100, ..Distribution::default() };
    assert_eq!(distribute(&distribution, 50, 0, 1), Err(ContractError::ContractMathError));
    let unchanged = distribute(&distribution, 100, 0, 1).unwrap();
    assert_eq!(unchanged, distribution);
}

impl Staking {
    /// Unbonding pays what is pending first, on the stakes held before the unbond.
    fn settle_and_unbond(
        &mut self,
        info: BondingInfo,
        amount: i128,
        stake_timestamp: u64,
        now: u64,
    ) -> Result<(i128, BondingInfo), ContractError> {
        let mut info = info;
        let paid = self.withdraw(&mut info, now);
        let info = self.unbond(info, amount, stake_timestamp)?;
        Ok((paid, info))
    }
}

#[test]
fn unbond_without_prior_withdraw_settles_pending_rewards() {
    let mut staking = Staking::new();
    let staked = 1_000;
    let user = staking.bond(BondingInfo::empty(), staked, 0).unwrap();
    let mut now = SIXTY_DAYS;
    for _ in 0..20 {
        staking.distribute(now, 1_000);
        now += ONE_DAY;
    }
    let pending =
        calculate_pending_rewards(&staking.rewards, &staking.totals, &user.stakes, user.last_reward_time, now).unwrap();
    assert_eq!(pending, 20_000);
    let (paid, mut user) = staking.settle_and_unbond(user, staked, 0, now).unwrap();
    assert_eq!(paid, 20_000, "unbond must settle pending rewards instead of stranding them");
    assert!(user.stakes.is_empty());
    assert_eq!(user.total_stake, 0);
    assert_eq!(user.last_reward_time, SIXTY_DAYS + 20 * ONE_DAY);
    assert_eq!(staking.total_staked, 0);
    assert_eq!(staking.withdraw(&mut user, now), 0);
}

#[test]
fn explicit_withdraw_then_unbond_does_not_double_pay() {
    let mut staking = Staking::new();
    let staked = 1_000;
    let mut user = staking.bond(BondingInfo::empty(), staked, 0).unwrap();
    let mut now = SIXTY_DAYS;
    for _ in 0..20 {
        staking.distribute(now, 1_000);
        now += ONE_DAY;
    }
    let first = staking.withdraw(&mut user, now);
    assert_eq!(first, 20_000);
    let (paid, _user) = staking.settle_and_unbond(user, staked, 0, now).unwrap();
    assert_eq!(first + paid, 20_000, "unbond must not double-pay rewards that were just claimed");
}

#[test]
fn partial_unbond_settles_then_continues_to_earn() {
    let mut staking = Staking::new();
    let user = staking.bond(BondingInfo::empty(), 1_000, 0).unwrap();
    let user = staking.bond(user, 2_000, SIXTY_DAYS).unwrap();
    let mut now = SIXTY_DAYS * 2;
    for _ in 0..5 {
        staking.distribute(now, 1_000);
        now += ONE_DAY;
    }
    let (credited_at_unbond, mut user) = staking.settle_and_unbond(user, 1_000, 0, now).unwrap();
    assert!(credited_at_unbond > 0, "partial unbond must credit accrued rewards on the remaining + removed stakes");
    for _ in 0..5 {
        staking.distribute(now, 1_000);
        now += ONE_DAY;
    }
    let new_rewards = staking.withdraw(&mut user, now);
    assert!(new_rewards > 0, "the surviving stake must keep accruing after a partial unbond");
    assert_eq!(user.total_stake, 2_000);
    assert_eq!(user.stakes.len(), 1);
    assert_eq!(user.stakes[0].stake, 2_000);
    assert_eq!(user.stakes[0].stake_timestamp, SIXTY_DAYS);
}

#[test]
fn unbond_with_no_pending_rewards_succeeds() {
    let mut staking = Staking::new();
    let user = staking.bond(BondingInfo::empty(), 1_000, 0).unwrap();
    let (paid, user) = staking.settle_and_unbond(user, 1_000, 0, ONE_DAY).unwrap();
    assert_eq!(paid, 0);
    assert!(user.stakes.is_empty());
    assert_eq!(user.total_stake, 0);
    assert_eq!(user.last_reward_time, ONE_DAY);
}

#[test]
fn a_funded_curve_locks_only_the_previous_curve_after_the_funding_ends() {
    let previous = Curve::saturating_linear((100, 1_000), (200, 0));
    let combined = plan_fund_distribution(&previous, 10, MIN_REWARD, 150, 150, 100, 5_000).unwrap();
    assert_eq!(combined.value(250), previous.value(250));
    assert_eq!(combined.value(300), 0);
    let still_locked = Curve::saturating_linear((100, 1_000), (400, 400));
    let combined = plan_fund_distribution(&still_locked, 10, MIN_REWARD, 150, 150, 100, 5_000).unwrap();
    assert_eq!(combined.value(500), still_locked.value(500));
    assert_eq!(combined.value(500), 400);
}

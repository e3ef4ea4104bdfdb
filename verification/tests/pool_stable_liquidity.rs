use phoenix_dex::pool_stable::contract::{
    check_provide_liquidity, check_withdraw_liquidity, compute_deposit_shares, plan_withdraw_liquidity, query_share,
    validate_initialize,
};
use phoenix_dex::address::AddressKey;
use phoenix_dex::pool_stable::error::ContractError;
use phoenix_dex::pool_stable::storage::{AmplifierParameters, Config, PairType};
use soroban_sdk::Env;

fn address(n: u64) -> AddressKey {
    AddressKey { is_contract: true, w0: n, w1: 0, w2: 0, w3: 0 }
}

fn config() -> Config {
    Config {
        token_a: address(1),
        token_b: address(2),
        share_token: address(3),
        stake_contract: address(4),
        pool_type: PairType::Stable,
        total_fee_bps: 0,
        fee_recipient: address(5),
        max_allowed_slippage_bps: 5_000,
        default_slippage_bps: 2_500,
        max_allowed_spread_bps: 10_000,
    }
}

/// A stable pool of two tokens of `decimals` decimals with amplification 6.
struct Pool {
    env: Env,
    amp: AmplifierParameters,
    decimals: u32,
    balance_a: i128,
    balance_b: i128,
    total_shares: i128,
}

impl Pool {
    fn new(decimals: u32) -> Pool {
        let amp = validate_initialize(false, 0, 5_000, 10_000, 2_500, 10_000, address(1), address(2), 6, 0).unwrap();
        Pool { env: Env::default(), amp, decimals, balance_a: 0, balance_b: 0, total_shares: 0 }
    }

    fn provide(&mut self, a: i128, b: i128, min_shares: Option<u128>) -> Result<i128, ContractError> {
        check_provide_liquidity(0, None, a, b, None, &config())?;
        let shares = compute_deposit_shares(
            &self.env,
            &self.amp,
            0,
            self.decimals,
            self.decimals,
            self.decimals,
            self.balance_a,
            self.balance_b,
            0,
            a,
            0,
            b,
            self.total_shares,
            min_shares,
        )?;
        self.balance_a += a;
        self.balance_b += b;
        self.total_shares += shares;
        Ok(shares)
    }

    fn withdraw(&mut self, shares: i128, min_a: i128, min_b: i128) -> Result<(i128, i128), ContractError> {
        check_withdraw_liquidity(0, None, shares, min_a, min_b)?;
        let plan = plan_withdraw_liquidity(self.balance_a, self.balance_b, self.total_shares, shares, min_a, min_b)?;
        self.balance_a = plan.new_balance_a;
        self.balance_b = plan.new_balance_b;
        self.total_shares = plan.new_total_shares;
        Ok((plan.return_amount_a, plan.return_amount_b))
    }

    fn share(&self, shares: i128) -> (i128, i128) {
        query_share(shares, self.total_shares, self.balance_a, self.balance_b).unwrap()
    }
}

#[test]
fn provide_liqudity() {
    let mut pool = Pool::new(7);
    let shares = pool.provide(1000, 1000, None).unwrap();
    assert_eq!(shares, 1000);
    assert_eq!((pool.balance_a, pool.balance_b, pool.total_shares), (1000, 1000, 1000));
}

#[test]
fn withdraw_liquidity() {
    let mut pool = Pool::new(7);
    pool.provide(1000, 1000, None).unwrap();
    let (a, b) = pool.withdraw(500, 500, 500).unwrap();
    assert_eq!((a, b), (500, 500));
    assert_eq!((pool.balance_a, pool.balance_b, pool.total_shares), (500, 500, 500));
    let (a, b) = pool.withdraw(500, 500, 500).unwrap();
    assert_eq!((a, b), (500, 500));
    assert_eq!((pool.balance_a, pool.balance_b, pool.total_shares), (0, 0, 0));
}

#[test]
fn provide_liqudity_with_deadline_works() {
    assert_eq!(check_provide_liquidity(99, Some(100), 1000, 1000, None, &config()), Ok(()));
    let mut pool = Pool::new(7);
    assert_eq!(pool.provide(1000, 1000, None), Ok(1000));
}

#[test]
fn provide_liqudity_past_deadline_should_panic() {
    assert_eq!(
        check_provide_liquidity(100, Some(99), 1000, 1000, None, &config()),
        Err(ContractError::TransactionAfterTimestampDeadline)
    );
}

#[test]
fn withdraw_liquidity_with_deadline_should_work() {
    assert_eq!(check_withdraw_liquidity(49, Some(50), 500, 500, 500), Ok(()));
    assert_eq!(check_withdraw_liquidity(99, Some(100), 500, 500, 500), Ok(()));
    let mut pool = Pool::new(7);
    pool.provide(1000, 1000, None).unwrap();
    assert_eq!(pool.withdraw(500, 500, 500), Ok((500, 500)));
    assert_eq!(pool.withdraw(500, 500, 500), Ok((500, 500)));
}

#[test]
fn withdraw_liquidity_past_deadline_should_panic() {
    assert_eq!(check_withdraw_liquidity(50, Some(49), 500, 500, 500), Err(ContractError::TransactionAfterTimestampDeadline));
}

#[test]
fn withdraw_liqudity_below_min() {
    let mut pool = Pool::new(7);
    pool.provide(1000, 1000, None).unwrap();
    assert_eq!(pool.withdraw(500, 501, 500), Err(ContractError::WithdrawLiquidityMinimumAmountOfAOrBIsNotSatisfied));
}

#[test]
fn swap_with_no_amounts() {
    assert_eq!(check_provide_liquidity(0, None, 0, 0, None, &config()), Err(ContractError::NegativeInputProvided));
}

#[test]
fn provide_liqudity_too_high_fees() {
    assert_eq!(
        check_provide_liquidity(0, None, 1000, 1000, Some(5_001), &config()),
        Err(ContractError::ProvideLiquiditySlippageToleranceTooHigh)
    );
}

#[test]
fn provide_liqudity_with_user_specified_minimum_lp_shares() {
    let mut pool = Pool::new(7);
    assert_eq!(pool.provide(1000, 1000, Some(1_000)), Ok(1000));
    assert_eq!(pool.total_shares, 1000);
}

#[test]
fn provide_liqudity_with_user_specified_minimum_lp_shares_should_panic_when_user_expected_is_more_than_issued() {
    let mut pool = Pool::new(7);
    assert_eq!(pool.provide(1000, 1000, Some(1_001)), Err(ContractError::IssuedSharesLessThanUserRequested));
}

#[test]
fn provide_and_withdraw_liquidity_with_18_decimal_tokens_and_large_numbers() {
    let mut pool = Pool::new(18);
    let shares = pool
        .provide(10_000_000_000000000000000000, 10_000_000_000000000000000000, None)
        .unwrap();
    assert_eq!(shares, 19_999_999_999999999999999000);
    let (a, b) = pool
        .withdraw(500_000_000000000000000000, 200_000_000000000000000000, 200_000_000000000000000000)
        .unwrap();
    assert_eq!((a, b), (250_000_000000000000000000, 250_000_000000000000000000));
    assert_eq!(pool.balance_a, 9_750_000_000000000000000000);
    assert_eq!(pool.balance_b, 9_750_000_000000000000000000);
    assert_eq!(pool.total_shares, 19_499_999_999999999999999000);
    let (a, b) = pool
        .withdraw(19_499_999_999999999999999000, 5_000_000_000000000000000000, 5_000_000_000000000000000000)
        .unwrap();
    assert_eq!((a, b), (9_750_000_000000000000000000, 9_750_000_000000000000000000));
    assert_eq!((pool.balance_a, pool.balance_b, pool.total_shares), (0, 0, 0));
}

#[test]
fn query_share_valid_liquidity() {
    let mut pool = Pool::new(7);
    let user1 = pool.provide(1500, 2000, None).unwrap();
    let user2 = pool.provide(1500, 2000, None).unwrap();
    let user3 = pool.provide(1500, 2000, None).unwrap();
    assert_eq!(pool.share(user1), (1499, 1999));
    assert_eq!((pool.balance_a, pool.balance_b, pool.total_shares), (4500, 6000, user1 + user2 + user3));

    pool.withdraw(user1, 1000, 1000).unwrap();
    assert_eq!((pool.balance_a, pool.balance_b, pool.total_shares), (3001, 4001, user2 + user3));

    assert_eq!(pool.share(user2), (1500, 2000));
    pool.withdraw(user2, 1500, 2000).unwrap();
    assert_eq!((pool.balance_a, pool.balance_b, pool.total_shares), (1501, 2001, user3));

    assert_eq!(pool.share(user3), (1501, 2001));
    pool.withdraw(1499, 1, 1).unwrap();
    assert_eq!((pool.balance_a, pool.balance_b), (601, 801));
    assert_eq!(user3 - 1499, 1000);
    assert_eq!(pool.share(1000), (601, 801));
}

#[test]
fn query_share_empty_pool() {
    let pool = Pool::new(7);
    assert_eq!(pool.share(0), (0, 0));
}

#[test]
fn withdraw_pays_what_query_share_reports() {
    let mut pool = Pool::new(7);
    pool.provide(1_234_567, 7_654_321, None).unwrap();
    let shares = pool.total_shares / 3;
    let quoted = pool.share(shares);
    assert_eq!(pool.withdraw(shares, 1, 1), Ok(quoted));
}

use phoenix_dex::address::AddressKey;
use phoenix_dex::pool_stable::contract;
use phoenix_dex::pool_stable::contract::validate_initialize;
use phoenix_dex::pool_stable::error::ContractError;
use phoenix_dex::pool_stable::storage::{AmplifierParameters, Config, PairType};

fn address(n: u64) -> AddressKey {
    AddressKey { is_contract: false, w0: n, w1: 7, w2: 0, w3: 0 }
}

fn token(n: u64) -> AddressKey {
    AddressKey { is_contract: true, w0: n, w1: 0, w2: 0, w3: 0 }
}

fn initial_config(fee_recipient: AddressKey) -> Config {
    Config {
        token_a: token(1),
        token_b: token(2),
        share_token: token(3),
        stake_contract: token(4),
        pool_type: PairType::Stable,
        total_fee_bps: 0,
        fee_recipient,
        max_allowed_slippage_bps: 500,
        default_slippage_bps: 2_500,
        max_allowed_spread_bps: 200,
    }
}

#[test]
fn update_config() {
    let admin1 = address(1);
    let admin2 = address(2);
    let user1 = address(3);
    let config = initial_config(user1);
    let (config, admin) = contract::update_config(&config, admin1, admin1, None, Some(500), Some(admin2), None, None).unwrap();
    assert_eq!(config, Config { total_fee_bps: 500, fee_recipient: admin2, ..initial_config(user1) });
    assert_eq!(admin, admin1);
    let (config, admin) = contract::update_config(&config, admin1, admin, None, None, None, Some(5_000), Some(500)).unwrap();
    assert_eq!(admin, admin1);
    assert_eq!(
        config,
        Config {
            total_fee_bps: 500,
            fee_recipient: admin2,
            max_allowed_slippage_bps: 5_000,
            max_allowed_spread_bps: 500,
            ..initial_config(user1)
        }
    );
}

#[test]
fn update_config_unauthorized() {
    let config = initial_config(address(3));
    let r = contract::update_config(&config, address(2), address(1), None, Some(500), Some(address(2)), None, None);
    assert_eq!(r, Err(ContractError::Unauthorized));
    let r = contract::update_config(&config, address(2), address(1), Some(address(2)), None, None, None, None);
    assert_eq!(r, Err(ContractError::Unauthorized));
}

#[test]
fn update_config_update_admin() {
    let admin1 = address(1);
    let admin2 = address(2);
    let user1 = address(3);
    let config = initial_config(user1);
    // update admin to new admin
    let (config, admin) = contract::update_config(&config, admin1, admin1, Some(admin2), None, None, None, None).unwrap();
    assert_eq!(admin, admin2);
    assert_eq!(config, initial_config(user1));
    // the former admin is refused from now on
    assert_eq!(
        contract::update_config(&config, admin1, admin, None, None, None, None, Some(3_000)),
        Err(ContractError::Unauthorized)
    );
    // now update succeeds
    let (config, admin) = contract::update_config(&config, admin2, admin, None, None, None, None, Some(3_000)).unwrap();
    assert_eq!(admin, admin2);
    assert_eq!(config, Config { max_allowed_spread_bps: 3_000, ..initial_config(user1) });
}

#[test]
fn update_config_too_high_fees() {
    let config = initial_config(address(3));
    let r = contract::update_config(&config, address(1), address(1), None, Some(10_100), Some(address(2)), None, None);
    assert_eq!(r, Err(ContractError::InvalidBps));
}

#[test]
fn initialize_with_incorrect_amp() {
    let r = validate_initialize(false, 0, 500, 200, 2_500, 1_000, token(1), token(2), 0, 0);
    assert_eq!(r, Err(ContractError::InvalidAMP));
    let r = validate_initialize(false, 0, 500, 200, 2_500, 1_000, token(1), token(2), 1_000_001, 0);
    assert_eq!(r, Err(ContractError::InvalidAMP));
}

#[test]
fn initialize_sets_fixed_amplification() {
    let r = validate_initialize(false, 0, 500, 200, 2_500, 1_000, token(1), token(2), 6, 42);
    assert_eq!(r, Ok(AmplifierParameters { init_amp: 600, init_amp_time: 42, next_amp: 600, next_amp_time: 42 }));
}

#[test]
fn update_config_all_bps_params_should_work() {
    let admin1 = address(1);
    let admin2 = address(2);
    let user1 = address(3);
    let config = initial_config(user1);
    let (config, admin) =
        contract::update_config(&config, admin1, admin1, None, Some(1000), Some(admin2), Some(1000), Some(1000)).unwrap();
    assert_eq!(admin, admin1);
    assert_eq!(
        config,
        Config {
            total_fee_bps: 1000,
            fee_recipient: admin2,
            max_allowed_slippage_bps: 1000,
            max_allowed_spread_bps: 1000,
            ..initial_config(user1)
        }
    );
}

#[test]
fn create_stable_pool_with_too_high_swap_fee_bps_should_panic() {
    let r = validate_initialize(false, 2_000, 500, 200, 2_500, 1_000, token(1), token(2), 6, 0);
    assert_eq!(r, Err(ContractError::SwapFeeBpsOverLimit));
}

#[test]
fn second_pool_stable_deployment_should_fail() {
    let r = validate_initialize(true, 0, 500, 200, 2_500, 1_000, token(1), token(2), 6, 0);
    assert_eq!(r, Err(ContractError::AlreadyInitialized));
}

#[test]
fn pool_stable_initialization_should_fail_with_token_a_bigger_than_token_b() {
    let r = validate_initialize(false, 0, 500, 200, 2_500, 1_000, token(2), token(1), 6, 0);
    assert_eq!(r, Err(ContractError::TokenABiggerThanTokenB));
    let r = validate_initialize(false, 0, 500, 200, 2_500, 1_000, token(1), token(1), 6, 0);
    assert_eq!(r, Err(ContractError::TokenABiggerThanTokenB));
}

use phoenix_dex::address::AddressKey;
use phoenix_dex::curve::{Curve, PiecewiseLinear, SaturatingLinear, Step};
use phoenix_dex::vesting::contract::{
    available_to_claim, check_admin_balance, check_burn, check_initialize, plan_claim, plan_mint,
    plan_update_minter, plan_update_minter_capacity, plan_vesting_schedules,
};
use phoenix_dex::vesting::error::ContractError;
use phoenix_dex::vesting::storage::{MinterInfo, VestingInfo, VestingSchedule};

fn address(n: u64) -> AddressKey {
    AddressKey { is_contract: false, w0: n, w1: 11, w2: 0, w3: 0 }
}

fn linear(min_x: u64, min_y: u128, max_x: u64, max_y: u128) -> Curve {
    Curve::SaturatingLinear(SaturatingLinear { min_x, min_y, max_x, max_y })
}

/// Creates the schedules as the contract does, returning the vesting records.
fn create(admin_balance: i128, schedules: Vec<VestingSchedule>) -> Result<Vec<VestingInfo>, ContractError> {
    let (amounts, total) = plan_vesting_schedules(&schedules, 10)?;
    check_admin_balance(admin_balance, total)?;
    Ok(schedules
        .into_iter()
        .zip(amounts)
        .map(|(s, balance)| VestingInfo { balance, recipient: s.recipient, schedule: s.curve })
        .collect())
}

/// Claims at `now`, returning what the recipient receives.
fn claim(info: &mut VestingInfo, now: u64) -> Result<i128, ContractError> {
    let (claimed, balance) = plan_claim(info.balance, &info.schedule, now)?;
    info.balance = balance;
    Ok(claimed)
}

#[test]
fn claim_tokens_when_fully_vested() {
    let mut infos = create(
        320,
        vec![
            VestingSchedule { recipient: address(1), curve: linear(0, 120, 60, 0) },
            VestingSchedule { recipient: address(2), curve: linear(15, 200, 60, 0) },
        ],
    )
    .unwrap();
    assert_eq!(claim(&mut infos[0], 60), Ok(120));
    assert_eq!(infos[1].balance, 200);
}

#[test]
fn claim_transfer_tokens_when_half_vested() {
    let mut infos = create(120, vec![VestingSchedule { recipient: address(1), curve: linear(0, 120, 60, 0) }]).unwrap();
    assert_eq!(claim(&mut infos[0], 30), Ok(60));
    assert_eq!(infos[0].balance, 60);
}

#[test]
fn claim_tokens_once_then_claim_again() {
    let mut infos = create(120, vec![VestingSchedule { recipient: address(1), curve: linear(0, 120, 60, 0) }]).unwrap();
    assert_eq!(claim(&mut infos[0], 30), Ok(60));
    assert_eq!(claim(&mut infos[0], 60), Ok(60));
    assert_eq!(infos[0].balance, 0);
}

#[test]
fn user_can_claim_tokens_way_after_the_testing_period() {
    let mut infos = create(120, vec![VestingSchedule { recipient: address(1), curve: linear(0, 120, 60, 0) }]).unwrap();
    assert_eq!(claim(&mut infos[0], 61), Ok(120));
    assert_eq!(infos[0].balance, 0);
}

#[test]
fn claim_transfer_vesting_token_before_vesting_period_starts_should_fail() {
    const START_TIMESTAMP: u64 = 15;
    let mut infos =
        create(1_000, vec![VestingSchedule { recipient: address(1), curve: linear(START_TIMESTAMP, 120, 60, 0) }]).unwrap();
    assert_eq!(claim(&mut infos[0], START_TIMESTAMP - 10), Err(ContractError::NeverFullyVested));
}

#[test]
fn claim_after_all_tokens_have_been_claimed() {
    let mut infos = create(1_000, vec![VestingSchedule { recipient: address(1), curve: linear(0, 1_000, 60, 0) }]).unwrap();
    assert_eq!(claim(&mut infos[0], 61), Ok(1_000));
    assert_eq!(claim(&mut infos[0], 61), Err(ContractError::NeverFullyVested));
}

#[test]
fn claim_transfer_works_with_multiple_users_and_distributions() {
    let mut infos = create(
        1_000,
        vec![
            VestingSchedule { recipient: address(1), curve: linear(0, 300, 1_000, 0) },
            VestingSchedule { recipient: address(2), curve: linear(0, 200, 500, 0) },
            VestingSchedule { recipient: address(3), curve: linear(125, 250, 750, 0) },
            VestingSchedule { recipient: address(4), curve: linear(250, 250, 1_500, 0) },
        ],
    )
    .unwrap();
    let mut received = [0i128; 4];
    for (k, info) in infos.iter_mut().enumerate() {
        received[k] += claim(info, 500).unwrap();
    }
    assert_eq!(received, [150, 200, 150, 50]);
    assert_eq!(infos.iter().map(|i| i.balance).sum::<u128>(), 450);
    for k in [0usize, 2, 3] {
        received[k] += claim(&mut infos[k], 1_000).unwrap();
    }
    assert_eq!(received, [300, 200, 250, 150]);
    received[3] += claim(&mut infos[3], 1_500).unwrap();
    assert_eq!(received[3], 250);
    assert_eq!(infos.iter().map(|i| i.balance).sum::<u128>(), 0);
}

#[test]
fn claim_claim_works() {
    let mut infos = create(120, vec![VestingSchedule { recipient: address(1), curve: linear(0, 120, 60, 0) }]).unwrap();
    assert_eq!(available_to_claim(infos[0].balance, &infos[0].schedule, 0), Ok(0));
    assert_eq!(claim(&mut infos[0], 30), Ok(60));
    assert_eq!(available_to_claim(infos[0].balance, &infos[0].schedule, 30), Ok(0));
    assert_eq!(claim(&mut infos[0], 60), Ok(60));
    assert_eq!(available_to_claim(infos[0].balance, &infos[0].schedule, 60), Ok(0));
}

#[test]
fn claim_tokens_from_two_distributions() {
    let mut first = create(2_000, vec![VestingSchedule { recipient: address(1), curve: linear(0, 1_500, 100, 0) }]).unwrap();
    assert_eq!(claim(&mut first[0], 50), Ok(750));
    let steps = vec![Step { time: 50, value: 500 }, Step { time: 100, value: 250 }, Step { time: 150, value: 0 }];
    let mut second = create(
        500,
        vec![VestingSchedule { recipient: address(1), curve: Curve::PiecewiseLinear(PiecewiseLinear { steps }) }],
    )
    .unwrap();
    assert_eq!(second[0].balance, 500);
    assert_eq!(claim(&mut first[0], 100), Ok(750));
    assert_eq!(claim(&mut second[0], 100), Ok(250));
    assert_eq!(claim(&mut second[0], 150), Ok(250));
    assert_eq!(first[0].balance + second[0].balance, 0);
}

#[test]
fn first_mainnet_simulation() {
    let mut infos = create(
        100_000_000,
        vec![VestingSchedule { recipient: address(1), curve: linear(1716817200, 100_000_000, 1716820800, 0) }],
    )
    .unwrap();
    assert_eq!(claim(&mut infos[0], 1716818400), Ok(33_333_333));
    assert_eq!(infos[0].balance, 66_666_667);
    assert_eq!(claim(&mut infos[0], 1716820801), Ok(66_666_667));
    assert_eq!(infos[0].balance, 0);
}

#[test]
fn instantiate_contract_successfully() {
    assert_eq!(check_initialize(false), Ok(()));
    let infos = create(
        320,
        vec![
            VestingSchedule { recipient: address(1), curve: linear(0, 120, 60, 0) },
            VestingSchedule { recipient: address(2), curve: linear(15, 200, 60, 0) },
        ],
    )
    .unwrap();
    assert_eq!(infos.iter().map(|i| i.balance).collect::<Vec<_>>(), vec![120, 200]);
}

#[test]
fn initialize_twice_refused() {
    assert_eq!(check_initialize(true), Err(ContractError::AlreadyInitialized));
}

#[test]
fn instantiate_contract_without_any_vesting_balances_should_fail() {
    assert_eq!(create(1_000, vec![]), Err(ContractError::MissingBalance));
}

#[test]
fn create_schedule_panics_when_admin_has_no_tokens_to_fund() {
    let r = create(0, vec![VestingSchedule { recipient: address(1), curve: linear(0, 120, 60, 0) }]);
    assert_eq!(r, Err(ContractError::NoEnoughtTokensToStart));
}

#[test]
fn create_schedules_refuses_duplicates_and_complex_curves() {
    let r = create(
        1_000,
        vec![
            VestingSchedule { recipient: address(1), curve: linear(0, 120, 60, 0) },
            VestingSchedule { recipient: address(1), curve: linear(0, 100, 60, 0) },
        ],
    );
    assert_eq!(r, Err(ContractError::DuplicateInitialBalanceAddresses));
    let steps: Vec<Step> = (1..=10u64).map(|k| Step { time: k, value: (10 - k) as u128 }).collect();
    let r = create(1_000, vec![VestingSchedule { recipient: address(1), curve: Curve::PiecewiseLinear(PiecewiseLinear { steps }) }]);
    assert_eq!(r, Err(ContractError::VestingComplexityTooHigh));
    let r = create(1_000, vec![VestingSchedule { recipient: address(1), curve: Curve::Constant(5) }]);
    assert_eq!(r, Err(ContractError::CurveConstant));
    let r = create(1_000, vec![VestingSchedule { recipient: address(1), curve: linear(60, 120, 0, 0) }]);
    assert_eq!(r, Err(ContractError::CurveError));
}

#[test]
fn messages_burn_should_panic_when_invalid_amount() {
    assert_eq!(check_burn(0), Err(ContractError::InvalidBurnAmount));
    assert_eq!(check_burn(120), Ok(()));
}

#[test]
fn messages_mint_works() {
    let minter = address(7);
    let info = MinterInfo { address: minter, mint_capacity: 500 };
    let info = plan_mint(minter, 250, Some(info)).unwrap();
    assert_eq!(info.mint_capacity, 250);
    let info = plan_mint(minter, 250, Some(info)).unwrap();
    assert_eq!(info, MinterInfo { address: minter, mint_capacity: 0 });
}

#[test]
fn messages_mint_should_panic_when_invalid_amount() {
    let info = MinterInfo { address: address(1), mint_capacity: 500 };
    assert_eq!(plan_mint(address(1), 0, Some(info)), Err(ContractError::InvalidMintAmount));
}

#[test]
fn messages_mint_should_panic_when_not_authorized_to_mint() {
    let info = MinterInfo { address: address(2), mint_capacity: 500 };
    assert_eq!(plan_mint(address(1), 100, Some(info)), Err(ContractError::NotAuthorized));
}

#[test]
fn messages_mint_should_panic_when_mintet_does_not_have_enough_capacity() {
    let info = MinterInfo { address: address(1), mint_capacity: 500 };
    assert_eq!(plan_mint(address(1), 1_500, Some(info)), Err(ContractError::NotEnoughCapacity));
}

#[test]
fn minting_fails_because_no_minter_was_found() {
    assert_eq!(plan_mint(address(1), 500, None), Err(ContractError::MinterNotFound));
}

#[test]
fn messages_update_minter_works_correctly() {
    let minter = address(7);
    let new_minter = address(8);
    let info = MinterInfo { address: minter, mint_capacity: 500 };
    let updated = plan_update_minter(minter, new_minter, Some(info), address(1)).unwrap();
    assert_eq!(updated, MinterInfo { address: new_minter, mint_capacity: 500 });
}

#[test]
fn update_minter_works_correctly_when_no_minter_was_set_initially() {
    let admin = address(1);
    let new_minter = address(8);
    let updated = plan_update_minter(admin, new_minter, None, admin).unwrap();
    assert_eq!(updated.address, new_minter);
}

#[test]
fn messages_update_minter_fails_when_not_authorized() {
    let info = MinterInfo { address: address(7), mint_capacity: 500 };
    assert_eq!(plan_update_minter(address(9), address(8), Some(info), address(1)), Err(ContractError::NotAuthorized));
}

#[test]
fn update_minter_fails_because_no_minter_found() {
    assert_eq!(plan_update_minter_capacity(address(1), address(1), None, 500), Err(ContractError::MinterNotFound));
}

#[test]
fn messages_test_should_update_minter_capacity_when_replacing_old_capacity() {
    let admin = address(1);
    let info = MinterInfo { address: address(7), mint_capacity: 500 };
    let updated = plan_update_minter_capacity(admin, admin, Some(info), 1_000).unwrap();
    assert_eq!(updated.mint_capacity, 1_000);
}

#[test]
fn messages_test_should_panic_when_updating_minter_capacity_without_auth() {
    let info = MinterInfo { address: address(7), mint_capacity: 500 };
    assert_eq!(plan_update_minter_capacity(address(2), address(1), Some(info), 1_000), Err(ContractError::NotAuthorized));
}

#[test]
fn minter_info_curve_is_flat_capacity() {
    let info = MinterInfo { address: address(7), mint_capacity: 500 };
    assert_eq!(info.get_curve(), Curve::Constant(500));
}

#[test]
fn instantiate_contract_successfully_with_constant_curve_minter_info() {
    assert_eq!(check_initialize(false), Ok(()));
    let info = MinterInfo { address: address(7), mint_capacity: 511223344 };
    assert_eq!(info.get_curve(), Curve::Constant(511223344));
}

#[test]
fn mint_panics_when_over_the_cap() {
    let info = MinterInfo { address: address(7), mint_capacity: 100 };
    assert_eq!(plan_mint(address(7), 110, Some(info)), Err(ContractError::NotEnoughCapacity));
}

#[test]
fn messages_burn_works() {
    let mut infos = create(1_000, vec![VestingSchedule { recipient: address(1), curve: linear(0, 120, 60, 0) }]).unwrap();
    assert_eq!(claim(&mut infos[0], 60), Ok(120));
    assert_eq!(check_burn(120), Ok(()));
}

#[test]
fn minter_burn_works() {
    assert_eq!(check_burn(120), Ok(()));
}

#[test]
fn minter_burn_should_panic_when_invalid_amount() {
    assert_eq!(check_burn(0), Err(ContractError::InvalidBurnAmount));
}

#[test]
fn minter_mint_works() {
    let minter = address(7);
    let info = plan_mint(minter, 250, Some(MinterInfo { address: minter, mint_capacity: 500 })).unwrap();
    assert_eq!(info.mint_capacity, 250);
    let info = plan_mint(minter, 250, Some(info)).unwrap();
    assert_eq!(info.mint_capacity, 0);
    assert_eq!(plan_mint(minter, 1, Some(info)), Err(ContractError::NotEnoughCapacity));
}

#[test]
fn minter_mint_should_panic_when_invalid_amount() {
    let info = MinterInfo { address: address(7), mint_capacity: 500 };
    assert_eq!(plan_mint(address(9), 0, Some(info)), Err(ContractError::InvalidMintAmount));
}

#[test]
fn minter_mint_should_panic_when_not_authorized_to_mint() {
    let info = MinterInfo { address: address(7), mint_capacity: 500 };
    assert_eq!(plan_mint(address(1), 100, Some(info)), Err(ContractError::NotAuthorized));
}

#[test]
fn minter_mint_should_panic_when_mintet_does_not_have_enough_capacity() {
    let info = MinterInfo { address: address(7), mint_capacity: 500 };
    assert_eq!(plan_mint(address(7), 1_500, Some(info)), Err(ContractError::NotEnoughCapacity));
}

#[test]
fn minter_update_minter_works_correctly() {
    let info = MinterInfo { address: address(7), mint_capacity: 500 };
    let updated = plan_update_minter(address(7), address(8), Some(info), address(1)).unwrap();
    assert_eq!(updated, MinterInfo { address: address(8), mint_capacity: 500 });
}

#[test]
fn minter_update_minter_fails_when_not_authorized() {
    let info = MinterInfo { address: address(7), mint_capacity: 500 };
    assert_eq!(plan_update_minter(address(3), address(8), Some(info), address(1)), Err(ContractError::NotAuthorized));
}

#[test]
fn update_minter_capacity_when_replacing_old_capacity() {
    let info = MinterInfo { address: address(7), mint_capacity: 500 };
    let updated = plan_update_minter_capacity(address(1), address(1), Some(info), 1_000).unwrap();
    assert_eq!(updated, MinterInfo { address: address(7), mint_capacity: 1_000 });
}

#[test]
fn updating_minter_capacity_without_auth() {
    let info = MinterInfo { address: address(7), mint_capacity: 500 };
    assert_eq!(plan_update_minter_capacity(address(7), address(1), Some(info), 1_000), Err(ContractError::NotAuthorized));
}

#[test]
fn mint_should_work_correctly() {
    let minter = address(7);
    let info = plan_mint(minter, 100, Some(MinterInfo { address: minter, mint_capacity: 100 })).unwrap();
    assert_eq!(info.mint_capacity, 0);
}

#[test]
fn other_operations_update_minter_works_correctly() {
    let updated = plan_update_minter(address(1), address(8), None, address(1)).unwrap();
    assert_eq!(updated, MinterInfo { address: address(8), mint_capacity: 0 });
}

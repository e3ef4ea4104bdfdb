//! The trader contract's entry points as decisions over its stored state:
//! the contract shell reads storage and balances, hands the values here,
//! and performs the swaps and transfers these decisions call for.
use vstd::prelude::*;

use super::error::ContractError;
use crate::address::AddressKey;
use crate::utils::AdminChangeError;

verus! {

/// The designated trader contract.
pub struct Trader;

/// Only the admin may trade, with a spread limit from 0 to 10000 basis
/// points if one is given, and only a token of the trading pair.
pub fn check_trade(
    sender: AddressKey,
    admin: AddressKey,
    token_to_swap: AddressKey,
    pair: (AddressKey, AddressKey),
    max_spread_bps: Option<i64>,
) -> (r: Result<(), ContractError>)
    ensures
        r == if sender != admin {
            Err(ContractError::Unauthorized)
        } else if max_spread_bps matches Some(b) && (b < 0 || b > 10000) {
            Err(ContractError::InvalidMaxSpreadBps)
        } else if token_to_swap != pair.0 && token_to_swap != pair.1 {
            Err(ContractError::SwapTokenNotInPair)
        } else {
            Ok::<(), ContractError>(())
        },
{
    if !sender.same(&admin) {
        return Err(ContractError::Unauthorized);
    }
    if let Some(bps) = max_spread_bps {
        if bps < 0 || bps > 10000 {
            return Err(ContractError::InvalidMaxSpreadBps);
        }
    }
    if !token_to_swap.same(&pair.0) && !token_to_swap.same(&pair.1) {
        return Err(ContractError::SwapTokenNotInPair);
    }
    Ok(())
}

/// The amount to swap: the one given, else all the sender holds.
pub fn trade_amount(amount: Option<u64>, sender_balance: i128) -> (r: i128)
    ensures
        r == match amount {
            Some(a) => a as i128,
            None => sender_balance,
        },
{
    match amount {
        Some(a) => a as i128,
        None => sender_balance,
    }
}

/// Only the admin may transfer; without a token given, the output token is sent.
pub fn check_transfer(
    sender: AddressKey,
    admin: AddressKey,
    token_address: Option<AddressKey>,
    output_token: AddressKey,
) -> (r: Result<AddressKey, ContractError>)
    ensures
        r == if sender != admin {
            Err(ContractError::Unauthorized)
        } else {
            Ok::<AddressKey, ContractError>(match token_address {
                Some(t) => t,
                None => output_token,
            })
        },
{
    if !sender.same(&admin) {
        return Err(ContractError::Unauthorized);
    }
    match token_address {
        Some(t) => Ok(t),
        None => Ok(output_token),
    }
}

/// The output token may not be one of the trading pair's tokens.
pub fn check_pair(output_token: AddressKey, pair: (AddressKey, AddressKey)) -> (r: Result<(), ContractError>)
    ensures
        r == if output_token == pair.0 || output_token == pair.1 {
            Err(ContractError::OutputTokenInPair)
        } else {
            Ok::<(), ContractError>(())
        },
{
    if output_token.same(&pair.0) || output_token.same(&pair.1) {
        return Err(ContractError::OutputTokenInPair);
    }
    Ok(())
}

/// The error the contract reports for a refused admin hand-over step.
pub fn admin_error(e: AdminChangeError) -> (r: ContractError)
    ensures
        r == match e {
            AdminChangeError::SameAdmin => ContractError::SameAdmin,
            AdminChangeError::NoAdminChangeInPlace => ContractError::NoAdminChangeInPlace,
            AdminChangeError::AdminChangeExpired => ContractError::AdminChangeExpired,
        },
{
    match e {
        AdminChangeError::SameAdmin => ContractError::SameAdmin,
        AdminChangeError::NoAdminChangeInPlace => ContractError::NoAdminChangeInPlace,
        AdminChangeError::AdminChangeExpired => ContractError::AdminChangeExpired,
    }
}

} // verus!

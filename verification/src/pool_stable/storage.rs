//! The pool's stored state and the values its queries return.
use vstd::prelude::*;

use crate::address::AddressKey;
use crate::decimal::Decimal;

verus! {

/// Keys of the pool's instance storage; `index` is the number each is stored under.
#[derive(Clone, Copy, Debug, PartialEq, Eq, Structural)]
pub enum DataKey {
    TotalShares,
    ReserveA,
    ReserveB,
    Admin,
    Initialized,
    Amp,
    MaxPrecision,
    TokenPrecision,
}

impl DataKey {
    pub fn index(&self) -> (r: u32)
        ensures
            r == match self {
                DataKey::TotalShares => 0u32,
                DataKey::ReserveA => 1,
                DataKey::ReserveB => 2,
                DataKey::Admin => 3,
                DataKey::Initialized => 4,
                DataKey::Amp => 5,
                DataKey::MaxPrecision => 6,
                DataKey::TokenPrecision => 7,
            },
    {
        match self {
            DataKey::TotalShares => 0,
            DataKey::ReserveA => 1,
            DataKey::ReserveB => 2,
            DataKey::Admin => 3,
            DataKey::Initialized => 4,
            DataKey::Amp => 5,
            DataKey::MaxPrecision => 6,
            DataKey::TokenPrecision => 7,
        }
    }
}

/// The kind of a liquidity pool.
#[derive(Clone, Copy, Debug, PartialEq, Eq, Structural)]
pub enum PairType {
    Xyk,
    Stable,
}

/// The amplification coefficient ramps linearly from `init_amp` at
/// `init_amp_time` to `next_amp` at `next_amp_time`.
#[derive(Clone, Copy, Debug, PartialEq, Eq, Structural)]
pub struct AmplifierParameters {
    pub init_amp: u64,
    pub init_amp_time: u64,
    pub next_amp: u64,
    pub next_amp_time: u64,
}

/// What a simulated swap would give.
#[derive(Clone, Copy, Debug, PartialEq, Eq, Structural)]
pub struct SimulateSwapResponse {
    pub ask_amount: i128,
    pub commission_amount: i128,
    pub spread_amount: i128,
    pub total_return: i128,
}

/// What a simulated reverse swap would take.
#[derive(Clone, Copy, Debug, PartialEq, Eq, Structural)]
pub struct SimulateReverseSwapResponse {
    pub offer_amount: i128,
    pub commission_amount: i128,
    pub spread_amount: i128,
}

/// The pool's configuration.
#[derive(Clone, Copy, Debug, PartialEq, Eq, Structural)]
pub struct Config {
    pub token_a: AddressKey,
    pub token_b: AddressKey,
    pub share_token: AddressKey,
    pub stake_contract: AddressKey,
    pub pool_type: PairType,
    /// The total fees (in bps) charged by a pool of this type, in relation to
    /// the returned amount of tokens.
    pub total_fee_bps: i64,
    pub fee_recipient: AddressKey,
    /// The maximum slippage (in bps) tolerated when providing liquidity.
    pub max_allowed_slippage_bps: i64,
    /// The slippage used when the depositor gives none.
    pub default_slippage_bps: i64,
    /// The maximum spread (in bps) tolerated during a swap.
    pub max_allowed_spread_bps: i64,
}

impl Config {
    pub fn protocol_fee_rate(&self) -> (r: Decimal)
        ensures
            r.0 == self.total_fee_bps as int * 100_000_000_000_000,
    {
        Decimal::bps(self.total_fee_bps)
    }

    pub fn max_allowed_slippage(&self) -> (r: Decimal)
        ensures
            r.0 == self.max_allowed_slippage_bps as int * 100_000_000_000_000,
    {
        Decimal::bps(self.max_allowed_slippage_bps)
    }
}

/// An asset of the pool and an amount of it.
#[derive(Clone, Copy, Debug, PartialEq, Eq, Structural)]
pub struct Asset {
    pub address: AddressKey,
    pub amount: i128,
}

/// The pool's assets, its issued LP shares and its stake contract.
#[derive(Clone, Copy, Debug, PartialEq, Eq, Structural)]
pub struct PoolResponse {
    pub asset_a: Asset,
    pub asset_b: Asset,
    pub asset_lp_share: Asset,
    pub stake_address: AddressKey,
}

/// The pool as the factory lists it.
#[derive(Clone, Copy, Debug, PartialEq, Eq, Structural)]
pub struct StableLiquidityPoolInfo {
    pub pool_address: AddressKey,
    pub pool_response: PoolResponse,
    pub total_fee_bps: i64,
}

/// The greater of the two tokens' precisions, at which the pool counts shares.
pub fn greatest_precision(precision1: u32, precision2: u32) -> (r: u32)
    ensures
        r == if precision1 > precision2 { precision1 } else { precision2 },
{
    if precision1 > precision2 {
        precision1
    } else {
        precision2
    }
}

} // verus!

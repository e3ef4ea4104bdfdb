//! The staking contract's entry points as decisions over its stored state:
//! the contract shell reads storage, token balances and the ledger time,
//! hands the values here, and performs the transfers these decisions call
//! for.
use vstd::prelude::*;

use super::error::ContractError;
use super::storage::{BondingInfo, Config, Stake};
use crate::address::AddressKey;
use crate::curve::{combined, curve_end_spec, curve_size_spec, Curve, SaturatingLinear};
use crate::decimal::{tdiv, Decimal, DECIMAL_FRACTIONAL};
use crate::stake_rewards::distribution::{
    annualized_payout_spec, checked_annualized_payout, checked_power_of, checked_withdrawable_rewards,
    power_defined, standard_power, update_defined, update_rewards, withdrawable_defined, withdrawable_spec,
    Distribution, WithdrawAdjustment,
};
use crate::stake_rewards::TOKEN_PER_POWER;
use crate::utils::AdminChangeError;

verus! {

/// The LP share token staking contract.
pub struct Staking;

/// Refuses a second initialization, and a configuration whose minimum bond,
/// minimum reward or curve complexity is not positive.
pub fn check_initialize(initialized: bool, min_bond: i128, min_reward: i128, max_complexity: u32) -> (r: Result<(), ContractError>)
    ensures
        r == if initialized {
            Err(ContractError::AlreadyInitialized)
        } else if min_bond <= 0 {
            Err(ContractError::InvalidMinBond)
        } else if min_reward <= 0 {
            Err(ContractError::InvalidMinReward)
        } else if max_complexity == 0 {
            Err(ContractError::InvalidMaxComplexity)
        } else {
            Ok::<(), ContractError>(())
        },
{
    if initialized {
        return Err(ContractError::AlreadyInitialized);
    }
    if min_bond <= 0 {
        return Err(ContractError::InvalidMinBond);
    }
    if min_reward <= 0 {
        return Err(ContractError::InvalidMinReward);
    }
    if max_complexity == 0 {
        return Err(ContractError::InvalidMaxComplexity);
    }
    Ok(())
}

/// A staker's record after bonding `tokens` at `now`: the bond is appended
/// and added to the total. Bonds below the minimum are refused.
pub fn bond_stake(info: BondingInfo, min_bond: i128, tokens: i128, now: u64) -> (r: Result<BondingInfo, ContractError>)
    ensures
        tokens < min_bond ==> r == Err::<BondingInfo, ContractError>(ContractError::InvalidBond),
        tokens >= min_bond && !(i128::MIN <= info.total_stake + tokens <= i128::MAX)
            ==> r == Err::<BondingInfo, ContractError>(ContractError::ContractMathError),
        tokens >= min_bond && i128::MIN <= info.total_stake + tokens <= i128::MAX ==> (r matches Ok(b) && {
            &&& b.stakes@ == info.stakes@.push(Stake { stake: tokens, stake_timestamp: now })
            &&& b.total_stake == info.total_stake + tokens
            &&& b.reward_debt == info.reward_debt
            &&& b.last_reward_time == info.last_reward_time
        }),
{
    if tokens < min_bond {
        return Err(ContractError::InvalidBond);
    }
    let mut info = info;
    info.total_stake = match info.total_stake.checked_add(tokens) {
        Some(v) => v,
        None => return Err(ContractError::ContractMathError),
    };
    info.stakes.push(Stake { stake: tokens, stake_timestamp: now });
    Ok(info)
}

/// Whether `s` is the bond of `stake` tokens made at `stake_timestamp`.
pub open spec fn is_bond(s: Stake, stake: i128, stake_timestamp: u64) -> bool {
    s.stake == stake && s.stake_timestamp == stake_timestamp
}

/// Removes the first bond of `stake` tokens made at `stake_timestamp`;
/// `StakeNotFound` when there is none.
pub fn remove_stake(stakes: &mut Vec<Stake>, stake: i128, stake_timestamp: u64) -> (r: Result<(), ContractError>)
    ensures
        r is Ok <==> exists|i: int| 0 <= i < old(stakes)@.len() && is_bond(old(stakes)@[i], stake, stake_timestamp),
        r is Ok ==> exists|i: int| {
            &&& 0 <= i < old(stakes)@.len()
            &&& is_bond(old(stakes)@[i], stake, stake_timestamp)
            &&& forall|k: int| 0 <= k < i ==> !is_bond(#[trigger] old(stakes)@[k], stake, stake_timestamp)
            &&& final(stakes)@ == old(stakes)@.remove(i)
        },
        r is Err ==> r == Err::<(), ContractError>(ContractError::StakeNotFound) && final(stakes)@ == old(stakes)@,
{
    let n = stakes.len();
    let mut i: usize = 0;
    while i < n
        invariant
            n == stakes@.len(),
            stakes@ == old(stakes)@,
            0 <= i <= n,
            forall|k: int| 0 <= k < i ==> !is_bond(#[trigger] stakes@[k], stake, stake_timestamp),
        decreases n - i,
    {
        if stakes[i].stake == stake && stakes[i].stake_timestamp == stake_timestamp {
            let ghost before = stakes@;
            stakes.remove(i);
            assert(is_bond(before[i as int], stake, stake_timestamp));
            return Ok(());
        }
        i = i + 1;
    }
    Err(ContractError::StakeNotFound)
}

/// A staker's record after unbonding the bond of `stake_amount` tokens made
/// at `stake_timestamp`: the bond is removed and subtracted from the total.
pub fn unbond_stake(info: BondingInfo, stake_amount: i128, stake_timestamp: u64) -> (r: Result<BondingInfo, ContractError>)
    ensures
        !(exists|i: int| 0 <= i < info.stakes@.len() && is_bond(info.stakes@[i], stake_amount, stake_timestamp))
            ==> r == Err::<BondingInfo, ContractError>(ContractError::StakeNotFound),
        (exists|i: int| 0 <= i < info.stakes@.len() && is_bond(info.stakes@[i], stake_amount, stake_timestamp))
            && !(i128::MIN <= info.total_stake - stake_amount <= i128::MAX)
            ==> r == Err::<BondingInfo, ContractError>(ContractError::ContractMathError),
        r matches Ok(b) ==> {
            &&& exists|i: int| {
                &&& 0 <= i < info.stakes@.len()
                &&& is_bond(info.stakes@[i], stake_amount, stake_timestamp)
                &&& forall|k: int| 0 <= k < i ==> !is_bond(#[trigger] info.stakes@[k], stake_amount, stake_timestamp)
                &&& b.stakes@ == info.stakes@.remove(i)
            }
            &&& b.total_stake == info.total_stake - stake_amount
            &&& b.reward_debt == info.reward_debt
            &&& b.last_reward_time == info.last_reward_time
        },
        (exists|i: int| 0 <= i < info.stakes@.len() && is_bond(info.stakes@[i], stake_amount, stake_timestamp))
            && i128::MIN <= info.total_stake - stake_amount <= i128::MAX ==> r is Ok,
{
    let mut info = info;
    remove_stake(&mut info.stakes, stake_amount, stake_timestamp)?;
    info.total_stake = match info.total_stake.checked_sub(stake_amount) {
        Some(v) => v,
        None => return Err(ContractError::ContractMathError),
    };
    Ok(info)
}

/// A staker's withdraw adjustment once their total stake moves from
/// `old_total` to `new_total`, so that their past rewards stay as they were;
/// `None` where the arithmetic overflows.
pub open spec fn adjustment_spec(
    min_bond: int,
    d: Distribution,
    a: WithdrawAdjustment,
    old_total: int,
    new_total: int,
) -> Option<WithdrawAdjustment> {
    if !power_defined(min_bond, old_total, DECIMAL_FRACTIONAL as int, TOKEN_PER_POWER as int)
        || !power_defined(min_bond, new_total, DECIMAL_FRACTIONAL as int, TOKEN_PER_POWER as int) {
        None
    } else {
        let old_power = standard_power(min_bond, old_total);
        let new_power = standard_power(min_bond, new_total);
        if !update_defined(a, d, old_power, new_power) {
            None
        } else if old_power == new_power {
            Some(a)
        } else {
            Some(WithdrawAdjustment {
                shares_correction: (a.shares_correction - (d.shares_per_point as i128) * (new_power - old_power)) as i128,
                withdrawn_rewards: a.withdrawn_rewards,
            })
        }
    }
}

/// A staker's withdraw adjustment for one distribution once their total
/// stake moves from `old_total` to `new_total`.
pub fn stake_change_adjustment(
    min_bond: i128,
    distribution: &Distribution,
    adjustment: WithdrawAdjustment,
    old_total: i128,
    new_total: i128,
) -> (r: Result<WithdrawAdjustment, ContractError>)
    ensures
        match adjustment_spec(min_bond as int, *distribution, adjustment, old_total as int, new_total as int) {
            Some(a) => r == Ok::<WithdrawAdjustment, ContractError>(a),
            None => r == Err::<WithdrawAdjustment, ContractError>(ContractError::ContractMathError),
        },
{
    // while bonding the multiplier is one
    let old_power = match checked_power_of(min_bond, old_total, Decimal::one(), TOKEN_PER_POWER) {
        Some(p) => p,
        None => return Err(ContractError::ContractMathError),
    };
    let new_power = match checked_power_of(min_bond, new_total, Decimal::one(), TOKEN_PER_POWER) {
        Some(p) => p,
        None => return Err(ContractError::ContractMathError),
    };
    let mut adjustment = adjustment;
    if old_power != new_power {
        let diff = match new_power.checked_sub(old_power) {
            Some(d) => d,
            None => return Err(ContractError::ContractMathError),
        };
        let ppw = distribution.shares_per_point as i128;
        let delta = match ppw.checked_mul(diff) {
            Some(d) => d,
            None => return Err(ContractError::ContractMathError),
        };
        if adjustment.shares_correction.checked_sub(delta).is_none() {
            return Err(ContractError::ContractMathError);
        }
    }
    update_rewards(&mut adjustment, distribution, old_power, new_power);
    Ok(adjustment)
}

/// The error the contract reports for a refused admin hand-over step.
pub fn admin_error(e: AdminChangeError) -> (r: ContractError)
    ensures
        r == match e {
            AdminChangeError::SameAdmin => ContractError::SameAdmin,
            AdminChangeError::NoAdminChangeInPlace => ContractError::NoAdminChangeInPlace,
            AdminChangeError::AdminChangeExpired => ContractError::AdminChangeExpired,
        },
{
    match e {
        AdminChangeError::SameAdmin => ContractError::SameAdmin,
        AdminChangeError::NoAdminChangeInPlace => ContractError::NoAdminChangeInPlace,
        AdminChangeError::AdminChangeExpired => ContractError::AdminChangeExpired,
    }
}

/// Amounts at or above this lose their high bits when shifted into points.
pub const POINTS_WRAP: u128 = 79228162514264337593543950336;

/// `2^SHARES_SHIFT`, by which an amount is scaled into points.
pub const POINTS_SCALE: u128 = 4294967296;

/// Only the manager or the owner may open a distribution flow; a new flow
/// starts at one share per point and nothing distributed.
pub fn create_distribution(sender: AddressKey, config: &Config) -> (r: Result<Distribution, ContractError>)
    ensures
        sender != config.manager && sender != config.owner ==> r == Err::<Distribution, ContractError>(ContractError::Unauthorized),
        sender == config.manager || sender == config.owner ==> r == Ok::<Distribution, ContractError>(Distribution {
            shares_per_point: 1,
            shares_leftover: 0,
            distributed_total: 0,
            withdrawable_total: 0,
            max_bonus_bps: 0,
            bonus_per_day_bps: 0,
        }),
{
    if !sender.same(&config.manager) && !sender.same(&config.owner) {
        return Err(ContractError::Unauthorized);
    }
    Ok(Distribution {
        shares_per_point: 1,
        shares_leftover: 0,
        distributed_total: 0,
        withdrawable_total: 0,
        max_bonus_bps: 0,
        bonus_per_day_bps: 0,
    })
}

/// The rewards power of everything staked, which distributions are shared
/// over.
pub fn total_rewards_power(min_bond: i128, total_staked: i128) -> (r: Result<u128, ContractError>)
    ensures
        power_defined(min_bond as int, total_staked as int, DECIMAL_FRACTIONAL as int, TOKEN_PER_POWER as int)
            ==> r == Ok::<u128, ContractError>((standard_power(min_bond as int, total_staked as int) as i128) as u128),
        !power_defined(min_bond as int, total_staked as int, DECIMAL_FRACTIONAL as int, TOKEN_PER_POWER as int)
            ==> r == Err::<u128, ContractError>(ContractError::ContractMathError),
{
    match checked_power_of(min_bond, total_staked, Decimal::one(), TOKEN_PER_POWER) {
        Some(p) => Ok(p as u128),
        None => Err(ContractError::ContractMathError),
    }
}

/// What distributing the new rewards does to a distribution: of the reward
/// token balance, what is neither withdrawable yet nor still locked in the
/// reward curve is shared out. The amount, shifted into points (dropping
/// bits above 128) plus the leftover, is split evenly over the rewards
/// power; the remainder is the new leftover.
pub open spec fn distribute_spec(d: Distribution, balance: i128, locked: u128, power: u128) -> Result<Distribution, ContractError> {
    let undistributed = balance as u128;
    if undistributed < d.withdrawable_total || undistributed - d.withdrawable_total < locked {
        Err(ContractError::ContractMathError)
    } else {
        let amount = undistributed - d.withdrawable_total - locked;
        if amount == 0 {
            Ok(d)
        } else {
            let points = (amount % (POINTS_WRAP as int)) * (POINTS_SCALE as int) + d.shares_leftover;
            if points > u128::MAX || power == 0 {
                Err(ContractError::ContractMathError)
            } else {
                let points_per_share = points / (power as int);
                if d.shares_per_point + points_per_share > u128::MAX || d.distributed_total + amount > u128::MAX
                    || d.withdrawable_total + amount > u128::MAX {
                    Err(ContractError::ContractMathError)
                } else {
                    Ok(Distribution {
                        shares_per_point: (d.shares_per_point + points_per_share) as u128,
                        shares_leftover: ((points % (power as int)) as u128) as u64,
                        distributed_total: (d.distributed_total + amount) as u128,
                        withdrawable_total: (d.withdrawable_total + amount) as u128,
                        ..d
                    })
                }
            }
        }
    }
}

/// Distributes the rewards that arrived since the last distribution.
/// `balance` is the contract's balance of the reward token, `locked` the
/// reward curve's value now and `power` the total rewards power.
pub fn distribute(distribution: &Distribution, balance: i128, locked: u128, power: u128) -> (r: Result<Distribution, ContractError>)
    ensures
        r == distribute_spec(*distribution, balance, locked, power),
{
    let withdrawable = distribution.withdrawable_total;
    // undistributed rewards are simply all tokens left on the contract
    let undistributed_rewards = balance as u128;
    let amount = match undistributed_rewards.checked_sub(withdrawable) {
        Some(diff) => match diff.checked_sub(locked) {
            Some(a) => a,
            None => return Err(ContractError::ContractMathError),
        },
        None => return Err(ContractError::ContractMathError),
    };
    if amount == 0 {
        return Ok(*distribution);
    }
    let leftover: u128 = distribution.shares_leftover as u128;
    let low = amount % POINTS_WRAP;
    assert(low * POINTS_SCALE <= u128::MAX) by (nonlinear_arith)
        requires low < POINTS_WRAP;
    let shifted_left = low * POINTS_SCALE;
    let points = match shifted_left.checked_add(leftover) {
        Some(p) => p,
        None => return Err(ContractError::ContractMathError),
    };
    let points_per_share = match points.checked_div(power) {
        Some(p) => p,
        None => return Err(ContractError::ContractMathError),
    };
    let shares_leftover = (points % power) as u64;
    let shares_per_point = match distribution.shares_per_point.checked_add(points_per_share) {
        Some(v) => v,
        None => return Err(ContractError::ContractMathError),
    };
    let distributed_total = match distribution.distributed_total.checked_add(amount) {
        Some(v) => v,
        None => return Err(ContractError::ContractMathError),
    };
    let withdrawable_total = match distribution.withdrawable_total.checked_add(amount) {
        Some(v) => v,
        None => return Err(ContractError::ContractMathError),
    };
    Ok(Distribution {
        shares_per_point,
        shares_leftover,
        distributed_total,
        withdrawable_total,
        max_bonus_bps: distribution.max_bonus_bps,
        bonus_per_day_bps: distribution.bonus_per_day_bps,
    })
}

/// What a withdrawal of `reward_amount` does: it counts as withdrawn by the
/// staker and leaves the distribution's withdrawable total. Nothing changes
/// for a zero amount.
pub open spec fn withdraw_spec(
    d: Distribution,
    a: WithdrawAdjustment,
    reward_amount: u128,
) -> Result<(Distribution, WithdrawAdjustment), ContractError> {
    if reward_amount == 0 {
        Ok((d, a))
    } else if a.withdrawn_rewards + reward_amount > u128::MAX || d.withdrawable_total < reward_amount {
        Err(ContractError::ContractMathError)
    } else {
        Ok((
            Distribution { withdrawable_total: (d.withdrawable_total - reward_amount) as u128, ..d },
            WithdrawAdjustment { withdrawn_rewards: (a.withdrawn_rewards + reward_amount) as u128, ..a },
        ))
    }
}

/// Records a withdrawal of `reward_amount` by a staker.
pub fn withdraw(
    distribution: &Distribution,
    adjustment: &WithdrawAdjustment,
    reward_amount: u128,
) -> (r: Result<(Distribution, WithdrawAdjustment), ContractError>)
    ensures
        r == withdraw_spec(*distribution, *adjustment, reward_amount),
{
    if reward_amount == 0 {
        return Ok((*distribution, *adjustment));
    }
    let withdrawn_rewards = match adjustment.withdrawn_rewards.checked_add(reward_amount) {
        Some(v) => v,
        None => return Err(ContractError::ContractMathError),
    };
    let withdrawable_total = match distribution.withdrawable_total.checked_sub(reward_amount) {
        Some(v) => v,
        None => return Err(ContractError::ContractMathError),
    };
    Ok((
        Distribution {
            shares_per_point: distribution.shares_per_point,
            shares_leftover: distribution.shares_leftover,
            distributed_total: distribution.distributed_total,
            withdrawable_total,
            max_bonus_bps: distribution.max_bonus_bps,
            bonus_per_day_bps: distribution.bonus_per_day_bps,
        },
        WithdrawAdjustment { shares_correction: adjustment.shares_correction, withdrawn_rewards },
    ))
}

/// The reward tokens on the contract that are not yet withdrawable.
pub fn undistributed_rewards(balance: i128, distribution: &Distribution) -> (r: Result<u128, ContractError>)
    ensures
        (balance as u128) >= distribution.withdrawable_total
            ==> r == Ok::<u128, ContractError>(((balance as u128) - distribution.withdrawable_total) as u128),
        (balance as u128) < distribution.withdrawable_total
            ==> r == Err::<u128, ContractError>(ContractError::ContractMathError),
{
    match (balance as u128).checked_sub(distribution.withdrawable_total) {
        Some(v) => Ok(v),
        None => Err(ContractError::ContractMathError),
    }
}

/// The curve that releases `token_amount` linearly from `start_time` to
/// `end_time`.
pub open spec fn funding_curve(start_time: u64, token_amount: i128, end_time: u64) -> Curve {
    Curve::SaturatingLinear(SaturatingLinear { min_x: start_time, min_y: token_amount as u128, max_x: end_time, max_y: 0 })
}

/// The checks of a funding before its curve is combined with the previous one.
pub open spec fn funding_checks(min_reward: i128, now: u64, start_time: u64, duration: u64, token_amount: i128) -> Result<(), ContractError> {
    if start_time < now {
        Err(ContractError::InvalidTime)
    } else if min_reward > token_amount {
        Err(ContractError::MinRewardNotEnough)
    } else if now + duration > u64::MAX {
        Err(ContractError::ContractMathError)
    } else {
        Ok(())
    }
}

/// The reward curve after funding a distribution with `token_amount`,
/// released from `start_time` until `duration` after `now`. A funding that
/// starts in the past or is below the minimum reward is refused. Where the
/// previous curve has run out, the new one replaces it; otherwise the two
/// are added up, and a sum with more than `max_complexity` points is refused.
pub fn plan_fund_distribution(
    previous: &Curve,
    max_complexity: u32,
    min_reward: i128,
    now: u64,
    start_time: u64,
    duration: u64,
    token_amount: i128,
) -> (r: Result<Curve, ContractError>)
    ensures
        funding_checks(min_reward, now, start_time, duration, token_amount) matches Err(e) ==> r == Err::<Curve, ContractError>(e),
        funding_checks(min_reward, now, start_time, duration, token_amount) is Ok ==> {
            let new_curve = funding_curve(start_time, token_amount, (now + duration) as u64);
            if curve_end_spec(*previous) matches Some(end) && end < now {
                r == Ok::<Curve, ContractError>(new_curve)
            } else {
                &&& r matches Ok(c) ==> combined(*previous, new_curve, Some(c)) && curve_size_spec(c) <= max_complexity
                &&& r == Err::<Curve, ContractError>(ContractError::ContractMathError) ==> combined(*previous, new_curve, None)
                &&& r == Err::<Curve, ContractError>(ContractError::InvalidMaxComplexity) ==> exists|c: Curve|
                    combined(*previous, new_curve, Some(c)) && curve_size_spec(c) > max_complexity
                &&& r is Ok || r == Err::<Curve, ContractError>(ContractError::ContractMathError)
                    || r == Err::<Curve, ContractError>(ContractError::InvalidMaxComplexity)
            }
        },
{
    if start_time < now {
        return Err(ContractError::InvalidTime);
    }
    if min_reward > token_amount {
        return Err(ContractError::MinRewardNotEnough);
    }
    let end_time = match now.checked_add(duration) {
        Some(t) => t,
        None => return Err(ContractError::ContractMathError),
    };
    // released from `token_amount` at `start_time` down to nothing at `end_time`
    let new_reward_distribution = Curve::saturating_linear((start_time, token_amount as u128), (end_time, 0));
    // the curve locks at most the amount provided and releases all of it
    match new_reward_distribution.range() {
        Some((min, max)) => {
            if min != 0 || max > token_amount as u128 {
                return Err(ContractError::RewardsInvalid);
            }
        },
        None => return Err(ContractError::RewardsInvalid),
    }
    match previous.end() {
        Some(end_distribution_timestamp) => {
            if end_distribution_timestamp < now {
                return Ok(new_reward_distribution);
            }
        },
        None => {},
    }
    // the previous distribution is still running: add the two up
    let new_reward_curve = match previous.combine(&new_reward_distribution) {
        Some(c) => c,
        None => return Err(ContractError::ContractMathError),
    };
    match new_reward_curve.validate_complexity(max_complexity) {
        Ok(()) => Ok(new_reward_curve),
        Err(_) => Err(ContractError::InvalidMaxComplexity),
    }
}

/// The configuration with the given fields replaced; a minimum bond,
/// minimum reward or curve complexity that is not positive is refused.
pub fn update_config(
    config: Config,
    lp_token: Option<AddressKey>,
    min_bond: Option<i128>,
    min_reward: Option<i128>,
    manager: Option<AddressKey>,
    owner: Option<AddressKey>,
    max_complexity: Option<u32>,
) -> (r: Result<Config, ContractError>)
    ensures
        r == if min_bond matches Some(b) && b <= 0 {
            Err(ContractError::InvalidMinBond)
        } else if min_reward matches Some(m) && m <= 0 {
            Err(ContractError::InvalidMinReward)
        } else if max_complexity matches Some(c) && c == 0 {
            Err(ContractError::InvalidMaxComplexity)
        } else {
            Ok::<Config, ContractError>(Config {
                lp_token: match lp_token { Some(t) => t, None => config.lp_token },
                min_bond: match min_bond { Some(b) => b, None => config.min_bond },
                min_reward: match min_reward { Some(m) => m, None => config.min_reward },
                manager: match manager { Some(m) => m, None => config.manager },
                owner: match owner { Some(o) => o, None => config.owner },
                max_complexity: match max_complexity { Some(c) => c, None => config.max_complexity },
            })
        },
{
    let mut config = config;
    if let Some(lp_token) = lp_token {
        config.lp_token = lp_token;
    }
    if let Some(min_bond) = min_bond {
        if min_bond <= 0 {
            return Err(ContractError::InvalidMinBond);
        }
        config.min_bond = min_bond;
    }
    if let Some(min_reward) = min_reward {
        if min_reward <= 0 {
            return Err(ContractError::InvalidMinReward);
        }
        config.min_reward = min_reward;
    }
    if let Some(manager) = manager {
        config.manager = manager;
    }
    if let Some(owner) = owner {
        config.owner = owner;
    }
    if let Some(max_complexity) = max_complexity {
        if max_complexity == 0 {
            return Err(ContractError::InvalidMaxComplexity);
        }
        config.max_complexity = max_complexity;
    }
    Ok(config)
}

/// The rewards a staker with `total_stake` staked can withdraw from a
/// distribution; `ContractMathError` where the arithmetic overflows.
pub fn staker_withdrawable(
    min_bond: i128,
    total_stake: i128,
    distribution: &Distribution,
    adjustment: &WithdrawAdjustment,
) -> (r: Result<u128, ContractError>)
    ensures
        withdrawable_defined(total_stake as int, *distribution, *adjustment, min_bond as int)
            ==> r == Ok::<u128, ContractError>(withdrawable_spec(total_stake as int, *distribution, *adjustment, min_bond as int) as u128),
        !withdrawable_defined(total_stake as int, *distribution, *adjustment, min_bond as int)
            ==> r == Err::<u128, ContractError>(ContractError::ContractMathError),
{
    match checked_withdrawable_rewards(total_stake, distribution, adjustment, min_bond) {
        Some(v) => Ok(v),
        None => Err(ContractError::ContractMathError),
    }
}

/// The annual reward rate of a distribution: nothing while nothing is
/// staked, otherwise the curve's annualized payout divided by the total
/// rewards power times the shares per point.
pub open spec fn annualized_rate_spec(
    min_bond: int,
    total_staked: int,
    curve: Option<Curve>,
    now: u64,
    shares_per_point: u128,
) -> Option<int> {
    if !power_defined(min_bond, total_staked, DECIMAL_FRACTIONAL as int, TOKEN_PER_POWER as int) {
        None
    } else {
        let power = standard_power(min_bond, total_staked);
        if power == 0 {
            Some(0)
        } else {
            match annualized_payout_spec(curve, now) {
                None => None,
                Some(payout) => {
                    let divisor = (power as u128) * shares_per_point;
                    if divisor > u128::MAX || (divisor as u128) as i128 == 0
                        || (payout == i128::MIN && (divisor as u128) as i128 == -1) {
                        None
                    } else {
                        Some(tdiv(payout, ((divisor as u128) as i128) as int))
                    }
                },
            }
        }
    }
}

/// The annual reward rate of a distribution whose reward curve is `curve`.
pub fn annualized_rate(
    min_bond: i128,
    total_staked: i128,
    curve: Option<Curve>,
    now: u64,
    distribution: &Distribution,
) -> (r: Result<Decimal, ContractError>)
    ensures
        match annualized_rate_spec(min_bond as int, total_staked as int, curve, now, distribution.shares_per_point) {
            Some(v) => r matches Ok(d) && d.0 == v,
            None => r == Err::<Decimal, ContractError>(ContractError::ContractMathError),
        },
{
    let total_stake_power = match checked_power_of(min_bond, total_staked, Decimal::one(), TOKEN_PER_POWER) {
        Some(p) => p,
        None => return Err(ContractError::ContractMathError),
    };
    if total_stake_power == 0 {
        return Ok(Decimal::zero());
    }
    let annualized_payout = match checked_annualized_payout(&curve, now) {
        Some(p) => p,
        None => return Err(ContractError::ContractMathError),
    };
    let divisor = match (total_stake_power as u128).checked_mul(distribution.shares_per_point) {
        Some(d) => d as i128,
        None => return Err(ContractError::ContractMathError),
    };
    if divisor == 0 || (annualized_payout.0 == i128::MIN && divisor == -1) {
        return Err(ContractError::ContractMathError);
    }
    Ok(annualized_payout.div_int(divisor))
}

} // verus!

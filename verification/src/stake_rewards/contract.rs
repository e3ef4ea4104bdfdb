//! The staking-rewards contract: a reward distribution tied to one staking
//! contract and one reward token. Distributing, withdrawing and funding go
//! the same way as in the staking contract (`stake::contract::distribute`,
//! `withdraw` and `plan_fund_distribution`); what is its own is where a
//! distribution starts and how a bond or an unbond moves a staker's power.
use vstd::prelude::*;

use super::distribution::{Distribution, WithdrawAdjustment};
use super::storage::{Config, Stake};
use crate::stake::contract::{adjustment_spec, stake_change_adjustment};

verus! {

/// The staking-rewards distribution contract.
pub struct StakingRewards;

impl StakingRewards {
    /// The distribution of the reward token when the contract starts: one
    /// share per point, nothing distributed or withdrawable yet.
    pub fn initial_distribution() -> (r: Distribution)
        ensures
            r == (Distribution {
                shares_per_point: 1,
                shares_leftover: 0,
                distributed_total: 0,
                withdrawable_total: 0,
                max_bonus_bps: 0,
                bonus_per_day_bps: 0,
            }),
    {
        Distribution {
            shares_per_point: 1,
            shares_leftover: 0,
            distributed_total: 0,
            withdrawable_total: 0,
            max_bonus_bps: 0,
            bonus_per_day_bps: 0,
        }
    }

    /// The stake that an unbond is taken to remove: the staker's last bond,
    /// or nothing when they hold none.
    pub fn unbonded_stake(stakes: &Vec<Stake>) -> (r: i128)
        ensures
            stakes@.len() == 0 ==> r == 0,
            stakes@.len() > 0 ==> r == stakes@.last().stake,
    {
        if stakes.len() == 0 {
            0
        } else {
            stakes[stakes.len() - 1].stake
        }
    }

    /// A staker's withdraw adjustment once `tokens` more are bonded on top of
    /// their `total_stake`, so that the rewards they earned so far stay as
    /// they were; `None` where the arithmetic overflows.
    pub fn calculate_bond(
        config: &Config,
        distribution: &Distribution,
        adjustment: WithdrawAdjustment,
        total_stake: i128,
        tokens: i128,
    ) -> (r: Option<WithdrawAdjustment>)
        ensures
            !(i128::MIN <= total_stake + tokens <= i128::MAX) ==> r is None,
            i128::MIN <= total_stake + tokens <= i128::MAX ==> r == adjustment_spec(
                config.min_bond as int,
                *distribution,
                adjustment,
                total_stake as int,
                total_stake + tokens,
            ),
    {
        let new_total = match total_stake.checked_add(tokens) {
            Some(t) => t,
            None => return None,
        };
        match stake_change_adjustment(config.min_bond, distribution, adjustment, total_stake, new_total) {
            Ok(a) => Some(a),
            Err(_) => None,
        }
    }

    /// A staker's withdraw adjustment once their last bond leaves their
    /// `total_stake`; `None` where the arithmetic overflows.
    pub fn calculate_unbond(
        config: &Config,
        distribution: &Distribution,
        adjustment: WithdrawAdjustment,
        stakes: &Vec<Stake>,
        total_stake: i128,
    ) -> (r: Option<WithdrawAdjustment>)
        ensures
            ({
                let leaving: int = if stakes@.len() == 0 { 0 } else { stakes@.last().stake as int };
                &&& !(i128::MIN <= total_stake - leaving <= i128::MAX) ==> r is None
                &&& i128::MIN <= total_stake - leaving <= i128::MAX ==> r == adjustment_spec(
                    config.min_bond as int,
                    *distribution,
                    adjustment,
                    total_stake as int,
                    total_stake - leaving,
                )
            }),
    {
        let leaving = Self::unbonded_stake(stakes);
        let new_total = match total_stake.checked_sub(leaving) {
            Some(t) => t,
            None => return None,
        };
        match stake_change_adjustment(config.min_bond, distribution, adjustment, total_stake, new_total) {
            Ok(a) => Some(a),
            Err(_) => None,
        }
    }
}

} // verus!

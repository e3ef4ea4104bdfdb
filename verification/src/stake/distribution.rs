//! Daily reward histories and the rewards a staker earns from them: each
//! rewarded day pays every bond its share of that day's rewards, scaled by
//! how many days (up to sixty) the bond had been staked.
use vstd::prelude::*;

use super::error::ContractError;
use super::storage::Stake;
use crate::decimal::{in_i128, mul_atomics, ratio_atomics, Decimal, DECIMAL_FRACTIONAL};

verus! {

pub const SECONDS_PER_DAY: u64 = 86400;

/// An amount per day, ordered by day with each day held once.
#[derive(Clone, Debug, PartialEq, Eq)]
pub struct History {
    entries: Vec<(u64, u128)>,
}

/// Whether the days of `s` increase strictly.
pub open spec fn days_increasing(s: Seq<(u64, u128)>) -> bool {
    forall|i: int, j: int| 0 <= i < j < s.len() ==> s[i].0 < s[j].0
}

/// The amount recorded for `day`, if any.
pub open spec fn lookup(s: Seq<(u64, u128)>, day: u64) -> Option<u128> {
    if exists|i: int| 0 <= i < s.len() && s[i].0 == day {
        Some(s[choose|i: int| 0 <= i < s.len() && s[i].0 == day].1)
    } else {
        None
    }
}

/// The entries once `amount` is recorded for `day`: the earlier days, then
/// `day` with `amount`, then the later days, with any previous entry for
/// `day` dropped.
pub open spec fn set_spec(s: Seq<(u64, u128)>, day: u64, amount: u128) -> Seq<(u64, u128)>
    decreases s.len(),
{
    if s.len() == 0 {
        seq![(day, amount)]
    } else if s[0].0 < day {
        seq![s[0]] + set_spec(s.drop_first(), day, amount)
    } else if s[0].0 == day {
        seq![(day, amount)] + s.drop_first()
    } else {
        seq![(day, amount)] + s
    }
}

/// `set_spec` splits the entries where the days reach `day`.
proof fn lemma_set_spec_split(s: Seq<(u64, u128)>, day: u64, amount: u128, i: int)
    requires
        0 <= i <= s.len(),
        forall|k: int| 0 <= k < i ==> s[k].0 < day,
        i == s.len() || s[i].0 >= day,
    ensures
        set_spec(s, day, amount) == if i < s.len() && s[i].0 == day {
            s.take(i) + seq![(day, amount)] + s.skip(i + 1)
        } else {
            s.take(i) + seq![(day, amount)] + s.skip(i)
        },
    decreases i,
{
    if i == 0 {
        if s.len() == 0 {
            assert(s.take(0) + seq![(day, amount)] + s.skip(0) =~= seq![(day, amount)]);
        } else if s[0].0 == day {
            assert(s.take(0) + seq![(day, amount)] + s.skip(1) =~= seq![(day, amount)] + s.drop_first());
        } else {
            assert(s.take(0) + seq![(day, amount)] + s.skip(0) =~= seq![(day, amount)] + s);
        }
    } else {
        let t = s.drop_first();
        lemma_set_spec_split(t, day, amount, i - 1);
        if i < s.len() && s[i].0 == day {
            assert(seq![s[0]] + (t.take(i - 1) + seq![(day, amount)] + t.skip(i)) =~= s.take(i) + seq![(day, amount)] + s.skip(i + 1));
        } else {
            assert(seq![s[0]] + (t.take(i - 1) + seq![(day, amount)] + t.skip(i - 1)) =~= s.take(i) + seq![(day, amount)] + s.skip(i));
        }
    }
}

impl View for History {
    type V = Seq<(u64, u128)>;

    closed spec fn view(&self) -> Seq<(u64, u128)> {
        self.entries@
    }
}

impl History {
    /// Every history built here keeps its days in increasing order.
    pub closed spec fn wf(&self) -> bool {
        days_increasing(self.entries@)
    }

    /// A well-formed history lists its days in strictly increasing order.
    pub proof fn lemma_wf(&self)
        requires
            self.wf(),
        ensures
            days_increasing(self@),
    {
    }

    /// A history without entries.
    pub fn new() -> (r: History)
        ensures
            r.wf(),
            r@ == Seq::<(u64, u128)>::empty(),
    {
        History { entries: Vec::new() }
    }

    /// The amount recorded for `day`, if any.
    pub fn get(&self, day: u64) -> (r: Option<u128>)
        requires
            self.wf(),
        ensures
            r == lookup(self@, day),
    {
        let mut i: usize = 0;
        while i < self.entries.len()
            invariant
                0 <= i <= self.entries@.len(),
                days_increasing(self.entries@),
                forall|k: int| 0 <= k < i ==> self.entries@[k].0 != day,
            decreases self.entries@.len() - i,
        {
            if self.entries[i].0 == day {
                proof {
                    lemma_lookup_at(self.entries@, i as int);
                }
                return Some(self.entries[i].1);
            }
            i = i + 1;
        }
        None
    }

    /// Records `amount` for `day`, replacing what was recorded for it.
    pub fn set(&mut self, day: u64, amount: u128)
        requires
            old(self).wf(),
        ensures
            final(self).wf(),
            final(self)@ == set_spec(old(self)@, day, amount),
            forall|d: u64| #[trigger] lookup(final(self)@, d) == if d == day { Some(amount) } else { lookup(old(self)@, d) },
    {
        let n = self.entries.len();
        let mut i: usize = 0;
        while i < n && self.entries[i].0 < day
            invariant
                n == self.entries@.len(),
                self.entries@ == old(self).entries@,
                days_increasing(self.entries@),
                0 <= i <= n,
                forall|k: int| 0 <= k < i ==> self.entries@[k].0 < day,
            decreases n - i,
        {
            i = i + 1;
        }
        let ghost before = self.entries@;
        proof {
            lemma_set_spec_split(before, day, amount, i as int);
        }
        if i < n && self.entries[i].0 == day {
            self.entries.set(i, (day, amount));
            proof {
                let after = self.entries@;
                assert(after =~= before.take(i as int) + seq![(day, amount)] + before.skip(i + 1));
                assert(days_increasing(after)) by {
                    assert forall|a: int, b: int| 0 <= a < b < after.len() implies after[a].0 < after[b].0 by {
                        assert(before[a].0 < before[b].0);
                    }
                }
                assert forall|d: u64| #[trigger] lookup(after, d) == if d == day { Some(amount) } else { lookup(before, d) } by {
                    lemma_lookup_at(after, i as int);
                    if d != day {
                        lemma_lookup_same_days(before, after, i as int, d);
                    }
                }
            }
        } else {
            self.entries.insert(i, (day, amount));
            proof {
                let after = self.entries@;
                assert(after =~= before.take(i as int) + seq![(day, amount)] + before.skip(i as int));
                assert(days_increasing(after)) by {
                    assert forall|a: int, b: int| 0 <= a < b < after.len() implies after[a].0 < after[b].0 by {
                        if b < i {
                            assert(before[a].0 < before[b].0);
                        } else if b == i {
                        } else if a < i {
                            assert(before[a].0 < before[b - 1].0);
                        } else if a == i {
                            if b - 1 > i {
                                assert(before[i as int].0 < before[b - 1].0);
                            }
                        } else {
                            assert(before[a - 1].0 < before[b - 1].0);
                        }
                    }
                }
                assert forall|d: u64| #[trigger] lookup(after, d) == if d == day { Some(amount) } else { lookup(before, d) } by {
                    lemma_lookup_at(after, i as int);
                    if d != day {
                        lemma_lookup_after_insert(before, i as int, (day, amount), d);
                    }
                }
            }
        }
    }
}

/// In an increasing history, the entry at `i` is what its day looks up.
proof fn lemma_lookup_at(s: Seq<(u64, u128)>, i: int)
    requires
        days_increasing(s),
        0 <= i < s.len(),
    ensures
        lookup(s, s[i].0) == Some(s[i].1),
{
    let c = choose|c: int| 0 <= c < s.len() && s[c].0 == s[i].0;
    assert(0 <= i < s.len() && s[i].0 == s[i].0);
    assert(c == i) by {
        if c < i {
            assert(s[c].0 < s[i].0);
        } else if c > i {
            assert(s[i].0 < s[c].0);
        }
    }
}

/// Changing the entry at `i` to the same day leaves other days' lookups alone.
proof fn lemma_lookup_same_days(before: Seq<(u64, u128)>, after: Seq<(u64, u128)>, i: int, d: u64)
    requires
        days_increasing(before),
        days_increasing(after),
        0 <= i < before.len(),
        after == before.update(i, (before[i].0, after[i].1)),
        d != before[i].0,
    ensures
        lookup(after, d) == lookup(before, d),
{
    if exists|k: int| 0 <= k < before.len() && before[k].0 == d {
        let k = choose|k: int| 0 <= k < before.len() && before[k].0 == d;
        assert(after[k] == before[k]);
        lemma_lookup_at(before, k);
        lemma_lookup_at(after, k);
    } else {
        assert forall|k: int| 0 <= k < after.len() implies after[k].0 != d by {
            if k != i {
                assert(after[k] == before[k]);
            }
        }
    }
}

/// Inserting an entry for another day leaves the lookup of `d` alone.
proof fn lemma_lookup_after_insert(before: Seq<(u64, u128)>, i: int, e: (u64, u128), d: u64)
    requires
        days_increasing(before),
        days_increasing(before.insert(i, e)),
        0 <= i <= before.len(),
        d != e.0,
    ensures
        lookup(before.insert(i, e), d) == lookup(before, d),
{
    let after = before.insert(i, e);
    if exists|k: int| 0 <= k < before.len() && before[k].0 == d {
        let k = choose|k: int| 0 <= k < before.len() && before[k].0 == d;
        lemma_lookup_at(before, k);
        if k < i {
            assert(after[k] == before[k]);
            lemma_lookup_at(after, k);
        } else {
            assert(after[k + 1] == before[k]);
            lemma_lookup_at(after, k + 1);
        }
    } else {
        assert forall|k: int| 0 <= k < after.len() implies after[k].0 != d by {
            if k < i {
                assert(after[k] == before[k]);
            } else if k > i {
                assert(after[k] == before[k - 1]);
            }
        }
    }
}

/// A bond's reward for one day: its share `stake * daily_reward / total_staked`
/// of the day's rewards, times `min(days staked, 60) / 60`. `None` where the
/// arithmetic overflows.
pub open spec fn bond_reward_spec(s: Stake, day: u64, daily_reward: u128, total_staked: u128) -> Option<int> {
    let product = (s.stake as u128) * daily_reward;
    if product > u128::MAX {
        None
    } else {
        let user_share = product / (total_staked as int);
        let age_days = (if day >= s.stake_timestamp { day - s.stake_timestamp } else { 0 }) / (SECONDS_PER_DAY as int);
        if age_days == 0 {
            Some(0)
        } else {
            let multiplier = if age_days >= 60 { DECIMAL_FRACTIONAL as int } else { ratio_atomics(age_days, 60) };
            let share = ((user_share as u128) as i128) as int;
            if in_i128(mul_atomics(share, multiplier)) {
                Some(mul_atomics(share, multiplier))
            } else {
                None
            }
        }
    }
}

/// `acc` plus the day's rewards of each bond in turn; `None` where a
/// reward or a running sum overflows.
pub open spec fn day_rewards_spec(stakes: Seq<Stake>, day: u64, daily_reward: u128, total_staked: u128, acc: int) -> Option<int>
    decreases stakes.len(),
{
    if stakes.len() == 0 {
        Some(acc)
    } else {
        match day_rewards_spec(stakes.drop_last(), day, daily_reward, total_staked, acc) {
            None => None,
            Some(a) => match bond_reward_spec(stakes.last(), day, daily_reward, total_staked) {
                None => None,
                Some(x) => if in_i128(a + x) { Some(a + x) } else { None },
            },
        }
    }
}

/// The rewards of the bonds over the rewarded days after `last_reward_time`
/// and up to `now`, skipping days with no or zero total staked. `None`
/// where the arithmetic overflows.
pub open spec fn pending_spec(
    rewards: Seq<(u64, u128)>,
    totals: Seq<(u64, u128)>,
    stakes: Seq<Stake>,
    last_reward_time: u64,
    now: u64,
) -> Option<int>
    decreases rewards.len(),
{
    if rewards.len() == 0 {
        Some(0)
    } else {
        match pending_spec(rewards.drop_last(), totals, stakes, last_reward_time, now) {
            None => None,
            Some(acc) => {
                let (day, daily_reward) = rewards.last();
                if day <= last_reward_time || day > now {
                    Some(acc)
                } else {
                    match lookup(totals, day) {
                        Some(total) => if total > 0 {
                            day_rewards_spec(stakes, day, daily_reward, total, acc)
                        } else {
                            Some(acc)
                        },
                        None => Some(acc),
                    }
                }
            },
        }
    }
}

/// A bond's reward for one day.
fn bond_reward(s: Stake, day: u64, daily_reward: u128, total_staked: u128) -> (r: Result<i128, ContractError>)
    requires
        total_staked > 0,
    ensures
        match bond_reward_spec(s, day, daily_reward, total_staked) {
            Some(v) => in_i128(v) && r == Ok::<i128, ContractError>(v as i128),
            None => r == Err::<i128, ContractError>(ContractError::ContractMathError),
        },
{
    // the bond's share of the total staked at the time
    let user_share = match (s.stake as u128).checked_mul(daily_reward) {
        Some(product) => product / total_staked,
        None => return Err(ContractError::ContractMathError),
    };
    let stake_age_days = day.saturating_sub(s.stake_timestamp) / SECONDS_PER_DAY;
    if stake_age_days == 0 {
        return Ok(0);
    }
    let multiplier = if stake_age_days >= 60 {
        Decimal::one()
    } else {
        Decimal::from_ratio(stake_age_days as i128, 60)
    };
    let share = user_share as i128;
    match Decimal::checked_mul_int(share, multiplier) {
        Some(v) => Ok(v),
        None => Err(ContractError::ContractMathError),
    }
}

/// A failed day sum stays failed over more bonds.
proof fn lemma_day_none_extends(stakes: Seq<Stake>, k: int, day: u64, daily_reward: u128, total_staked: u128, acc: int)
    requires
        0 <= k <= stakes.len(),
        day_rewards_spec(stakes.subrange(0, k), day, daily_reward, total_staked, acc) is None,
    ensures
        day_rewards_spec(stakes, day, daily_reward, total_staked, acc) is None,
    decreases stakes.len() - k,
{
    if k < stakes.len() {
        assert(stakes.subrange(0, k + 1).drop_last() =~= stakes.subrange(0, k));
        lemma_day_none_extends(stakes, k + 1, day, daily_reward, total_staked, acc);
    } else {
        assert(stakes.subrange(0, k) =~= stakes);
    }
}

/// A failed pending sum stays failed over more days.
proof fn lemma_pending_none_extends(
    rewards: Seq<(u64, u128)>,
    k: int,
    totals: Seq<(u64, u128)>,
    stakes: Seq<Stake>,
    last_reward_time: u64,
    now: u64,
)
    requires
        0 <= k <= rewards.len(),
        pending_spec(rewards.subrange(0, k), totals, stakes, last_reward_time, now) is None,
    ensures
        pending_spec(rewards, totals, stakes, last_reward_time, now) is None,
    decreases rewards.len() - k,
{
    if k < rewards.len() {
        assert(rewards.subrange(0, k + 1).drop_last() =~= rewards.subrange(0, k));
        lemma_pending_none_extends(rewards, k + 1, totals, stakes, last_reward_time, now);
    } else {
        assert(rewards.subrange(0, k) =~= rewards);
    }
}

/// `acc` plus the day's rewards of every bond.
fn day_rewards(stakes: &Vec<Stake>, day: u64, daily_reward: u128, total_staked: u128, acc: i128) -> (r: Result<i128, ContractError>)
    requires
        total_staked > 0,
    ensures
        match day_rewards_spec(stakes@, day, daily_reward, total_staked, acc as int) {
            Some(v) => in_i128(v) && r == Ok::<i128, ContractError>(v as i128),
            None => r == Err::<i128, ContractError>(ContractError::ContractMathError),
        },
{
    let mut pending = acc;
    let mut j: usize = 0;
    assert(stakes@.subrange(0, 0) =~= Seq::<Stake>::empty());
    while j < stakes.len()
        invariant
            0 <= j <= stakes@.len(),
            total_staked > 0,
            day_rewards_spec(stakes@.subrange(0, j as int), day, daily_reward, total_staked, acc as int)
                == Some(pending as int),
        decreases stakes@.len() - j,
    {
        let s = stakes[j];
        proof {
            assert(stakes@.subrange(0, j + 1).drop_last() =~= stakes@.subrange(0, j as int));
            assert(stakes@.subrange(0, j + 1).last() == s);
        }
        let adjusted_reward = match bond_reward(s, day, daily_reward, total_staked) {
            Ok(v) => v,
            Err(e) => {
                proof {
                    lemma_day_none_extends(stakes@, j + 1, day, daily_reward, total_staked, acc as int);
                }
                return Err(e);
            },
        };
        pending = match pending.checked_add(adjusted_reward) {
            Some(v) => v,
            None => {
                proof {
                    lemma_day_none_extends(stakes@, j + 1, day, daily_reward, total_staked, acc as int);
                }
                return Err(ContractError::ContractMathError);
            },
        };
        j = j + 1;
    }
    assert(stakes@.subrange(0, stakes@.len() as int) =~= stakes@);
    Ok(pending)
}

/// The rewards a staker with `stakes` has earned on the rewarded days after
/// `last_reward_time` up to `now`; `ContractMathError` where the arithmetic
/// overflows.
pub fn calculate_pending_rewards(
    reward_history: &History,
    total_staked_history: &History,
    stakes: &Vec<Stake>,
    last_reward_time: u64,
    now: u64,
) -> (r: Result<i128, ContractError>)
    requires
        reward_history.wf(),
        total_staked_history.wf(),
    ensures
        match pending_spec(reward_history@, total_staked_history@, stakes@, last_reward_time, now) {
            Some(v) => in_i128(v) && r == Ok::<i128, ContractError>(v as i128),
            None => r == Err::<i128, ContractError>(ContractError::ContractMathError),
        },
{
    let mut pending_rewards: i128 = 0;
    let n = reward_history.entries.len();
    let ghost rewards = reward_history@;
    let ghost totals = total_staked_history@;
    let mut i: usize = 0;
    assert(rewards.subrange(0, 0) =~= Seq::<(u64, u128)>::empty());
    while i < n
        invariant
            n == rewards.len(),
            rewards == reward_history@,
            totals == total_staked_history@,
            total_staked_history.wf(),
            0 <= i <= n,
            pending_spec(rewards.subrange(0, i as int), totals, stakes@, last_reward_time, now) == Some(pending_rewards as int),
        decreases n - i,
    {
        let (day, daily_reward) = reward_history.entries[i];
        proof {
            assert(rewards.subrange(0, i + 1).drop_last() =~= rewards.subrange(0, i as int));
            assert(rewards.subrange(0, i + 1).last() == (day, daily_reward));
        }
        if last_reward_time < day && day <= now {
            match total_staked_history.get(day) {
                Some(total_staked) => {
                    if total_staked > 0 {
                        pending_rewards = match day_rewards(stakes, day, daily_reward, total_staked, pending_rewards) {
                            Ok(v) => v,
                            Err(e) => {
                                proof {
                                    lemma_pending_none_extends(rewards, i + 1, totals, stakes@, last_reward_time, now);
                                }
                                return Err(e);
                            },
                        };
                    }
                },
                None => {},
            }
        }
        i = i + 1;
    }
    assert(rewards.subrange(0, n as int) =~= rewards);
    Ok(pending_rewards)
}

} // verus!

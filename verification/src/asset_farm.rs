//! The farms of the ledger: what each pays, and to how many shares.

use crate::big_decimal::{spec_add, spec_div, BigDecimal, BIG_DIVISOR};
use crate::error::Error;
use crate::fold::{fold_results, lemma_fold_sticky};
use crate::pool::Balance;
use crate::str_map::{deep, lemma_deep, lemma_deep_upsert, lookup, upsert, without, Entries, StrMap};
use crate::utils::{Timestamp, TokenId};
use crate::wide::mul_div_u128;
use vstd::prelude::*;

verus! {

/// The nanoseconds of a day.
pub const NANOS_PER_DAY: u128 = 86_400_000_000_000;

/// What a farm pays in one reward token.
#[derive(Clone, Copy, Debug)]
pub struct AssetFarmReward {
    /// What the farm pays out over a day.
    pub reward_per_day: Balance,
    /// The base of the logarithm by which a stake of booster tokens adds to
    /// the shares.  Zero switches the boost off.
    pub booster_log_base: Balance,
    /// What the farm has left to pay.
    pub remaining_rewards: Balance,
    /// The shares that earn, the boosts included.
    pub boosted_shares: Balance,
    /// What the farm has paid so far for each share.
    pub reward_per_share: BigDecimal,
}

/// A reward of a farm as the contracts see it: the reward per share by its
/// mantissa.
pub struct AssetFarmRewardModel {
    pub reward_per_day: Balance,
    pub booster_log_base: Balance,
    pub remaining_rewards: Balance,
    pub boosted_shares: Balance,
    pub reward_per_share: nat,
}

impl View for AssetFarmReward {
    type V = AssetFarmRewardModel;

    open spec fn view(&self) -> AssetFarmRewardModel {
        AssetFarmRewardModel {
            reward_per_day: self.reward_per_day,
            booster_log_base: self.booster_log_base,
            remaining_rewards: self.remaining_rewards,
            boosted_shares: self.boosted_shares,
            reward_per_share: self.reward_per_share@,
        }
    }
}

/// What a reward pays out over `time_diff` nanoseconds: that part of its
/// daily payment, rounded down, and no more than it has left.
pub open spec fn paid(reward: AssetFarmRewardModel, time_diff: nat) -> Balance {
    let due = (reward.reward_per_day as nat) * time_diff / (NANOS_PER_DAY as nat);
    if due <= reward.remaining_rewards {
        due as Balance
    } else {
        reward.remaining_rewards
    }
}

/// The reward after `time_diff` nanoseconds: what it pays out is shared by
/// the shares that earn.  A reward that no share earns stands still.
pub open spec fn accrued(reward: AssetFarmRewardModel, time_diff: nat) -> Result<
    AssetFarmRewardModel,
    Error,
> {
    if reward.boosted_shares == 0 {
        Ok(reward)
    } else {
        let out = paid(reward, time_diff);
        match spec_div(
            (out as nat) * (BIG_DIVISOR as nat),
            (reward.boosted_shares as nat) * (BIG_DIVISOR as nat),
        ) {
            Err(e) => Err(e),
            Ok(each) => match spec_add(reward.reward_per_share, each) {
                Err(e) => Err(e),
                Ok(reward_per_share) => Ok(
                    AssetFarmRewardModel {
                        remaining_rewards: (reward.remaining_rewards - out) as Balance,
                        reward_per_share,
                        ..reward
                    },
                ),
            },
        }
    }
}

/// The rewards of a farm while they are brought up to date.
pub struct UpdateState {
    pub rewards: Entries<AssetFarmRewardModel>,
    pub inactive_rewards: Entries<AssetFarmRewardModel>,
}

/// The rewards after one more of them was brought up to date: one that
/// has paid out all it had becomes inactive, unless the farm is only
/// looked at.
pub open spec fn reward_updated(
    s: UpdateState,
    entry: (Seq<char>, AssetFarmRewardModel),
    time_diff: nat,
    is_view: bool,
) -> Result<UpdateState, Error> {
    match accrued(entry.1, time_diff) {
        Err(e) => Err(e),
        Ok(reward) => if !is_view && entry.1.boosted_shares > 0 && reward.remaining_rewards
            == 0 {
            Ok(UpdateState { inactive_rewards: upsert(s.inactive_rewards, entry.0, reward), ..s })
        } else {
            Ok(UpdateState { rewards: upsert(s.rewards, entry.0, reward), ..s })
        },
    }
}

/// `reward_updated` as the step of a fold.
pub open spec fn update_step(time_diff: nat, is_view: bool) -> spec_fn(
    UpdateState,
    (Seq<char>, AssetFarmRewardModel),
) -> Result<UpdateState, Error> {
    |s: UpdateState, entry: (Seq<char>, AssetFarmRewardModel)|
        reward_updated(s, entry, time_diff, is_view)
}

/// One farm of the ledger.
pub struct AssetFarm {
    /// The time up to which the farm has paid.
    pub block_timestamp: Timestamp,
    /// The reward tokens that the farm pays.
    pub rewards: StrMap<AssetFarmReward>,
    /// The reward tokens that the farm has stopped paying.
    pub inactive_rewards: StrMap<AssetFarmReward>,
}

/// A farm as the contracts see it.
pub struct AssetFarmModel {
    pub block_timestamp: Timestamp,
    pub rewards: Entries<AssetFarmReward>,
    pub inactive_rewards: Entries<AssetFarmReward>,
}

impl View for AssetFarm {
    type V = AssetFarmModel;

    open spec fn view(&self) -> AssetFarmModel {
        AssetFarmModel {
            block_timestamp: self.block_timestamp,
            rewards: self.rewards@,
            inactive_rewards: self.inactive_rewards@,
        }
    }
}

impl Clone for AssetFarm {
    fn clone(&self) -> (r: Self)
        ensures
            r@ == self@,
    {
        let rewards = self.rewards.clone();
        let inactive_rewards = self.inactive_rewards.clone();
        assert(rewards@ =~= self.rewards@);
        assert(inactive_rewards@ =~= self.inactive_rewards@);
        AssetFarm { block_timestamp: self.block_timestamp, rewards, inactive_rewards }
    }
}

/// A farm with its rewards as the contracts see them.
pub struct AssetFarmValues {
    pub block_timestamp: Timestamp,
    pub rewards: Entries<AssetFarmRewardModel>,
    pub inactive_rewards: Entries<AssetFarmRewardModel>,
}

impl AssetFarmModel {
    /// The farm with each reward per share by its mantissa.
    pub open spec fn values(self) -> AssetFarmValues {
        AssetFarmValues {
            block_timestamp: self.block_timestamp,
            rewards: deep(self.rewards),
            inactive_rewards: deep(self.inactive_rewards),
        }
    }
}

impl AssetFarmValues {
    /// The farm brought up to the time `now`: each reward has paid for the
    /// time since the farm was last brought up to date, and those that
    /// have nothing left have become inactive.  Where the farm is only
    /// looked at, `is_view`, they stay among the rewards that it pays.
    pub open spec fn updated(self, now: Timestamp, is_view: bool) -> Result<AssetFarmValues, Error> {
        if now < self.block_timestamp {
            Err(Error::ClockWentBack)
        } else if now == self.block_timestamp {
            Ok(self)
        } else {
            match fold_results(
                UpdateState {
                    rewards: Seq::<(Seq<char>, AssetFarmRewardModel)>::empty(),
                    inactive_rewards: self.inactive_rewards,
                },
                self.rewards,
                update_step((now - self.block_timestamp) as nat, is_view),
                self.rewards.len(),
            ) {
                Err(e) => Err(e),
                Ok(s) => Ok(
                    AssetFarmValues {
                        block_timestamp: now,
                        rewards: s.rewards,
                        inactive_rewards: s.inactive_rewards,
                    },
                ),
            }
        }
    }
}

impl AssetFarmValues {
    /// What the farm knows of the reward `token_id`, paying or not: nothing
    /// to pay and nothing paid, where it does not know it.
    pub open spec fn reward(self, token_id: Seq<char>) -> AssetFarmRewardModel {
        match lookup(self.rewards, token_id) {
            Some(r) => r,
            None => match lookup(self.inactive_rewards, token_id) {
                Some(r) => r,
                None => AssetFarmRewardModel {
                    reward_per_day: 0,
                    booster_log_base: 0,
                    remaining_rewards: 0,
                    boosted_shares: 0,
                    reward_per_share: 0,
                },
            },
        }
    }

    /// The farm after `reward_amount` was added to what it has to pay in
    /// `token_id`, at the new rate and with the new boost.  The reward is
    /// among those that the farm pays.
    pub open spec fn reward_added(
        self,
        token_id: Seq<char>,
        new_reward_per_day: Balance,
        new_booster_log_base: Balance,
        reward_amount: Balance,
    ) -> Result<AssetFarmValues, Error> {
        let before = self.reward(token_id);
        if before.remaining_rewards + reward_amount > u128::MAX {
            Err(Error::Overflow)
        } else {
            Ok(
                AssetFarmValues {
                    block_timestamp: self.block_timestamp,
                    rewards: upsert(
                        self.rewards,
                        token_id,
                        AssetFarmRewardModel {
                            reward_per_day: new_reward_per_day,
                            booster_log_base: new_booster_log_base,
                            remaining_rewards: (before.remaining_rewards + reward_amount) as Balance,
                            ..before
                        },
                    ),
                    inactive_rewards: without(self.inactive_rewards, token_id),
                },
            )
        }
    }
}

impl AssetFarmReward {
    /// The reward after `time_diff` nanoseconds.
    pub fn accrue(&self, time_diff: u64) -> (r: Result<AssetFarmReward, Error>)
        ensures
            match accrued(self@, time_diff as nat) {
                Ok(m) => r matches Ok(x) && x@ == m,
                Err(e) => r matches Err(e2) && e2 == e,
            },
    {
        if self.boosted_shares == 0 {
            return Ok(*self);
        }
        let out: u128 = match mul_div_u128(self.reward_per_day, time_diff as u128, 0, NANOS_PER_DAY) {
            Some(due) => if due <= self.remaining_rewards {
                due
            } else {
                self.remaining_rewards
            },
            None => self.remaining_rewards,
        };
        let each = BigDecimal::from_u128(out).checked_div(
            &BigDecimal::from_u128(self.boosted_shares),
        )?;
        let reward_per_share = self.reward_per_share.checked_add(&each)?;
        Ok(
            AssetFarmReward {
                reward_per_day: self.reward_per_day,
                booster_log_base: self.booster_log_base,
                remaining_rewards: self.remaining_rewards - out,
                boosted_shares: self.boosted_shares,
                reward_per_share,
            },
        )
    }
}

/// Brings one reward of a farm up to date.
fn update_one(
    rewards: &mut StrMap<AssetFarmReward>,
    inactive_rewards: &mut StrMap<AssetFarmReward>,
    token_id: &TokenId,
    reward: &AssetFarmReward,
    time_diff: u64,
    is_view: bool,
) -> (r: Result<(), Error>)
    ensures
        match reward_updated(
            UpdateState {
                rewards: deep(old(rewards)@),
                inactive_rewards: deep(old(inactive_rewards)@),
            },
            (token_id@, reward@),
            time_diff as nat,
            is_view,
        ) {
            Ok(s) => r is Ok && s == (UpdateState {
                rewards: deep(final(rewards)@),
                inactive_rewards: deep(final(inactive_rewards)@),
            }),
            Err(e) => r == Err::<(), Error>(e),
        },
{
    let after = reward.accrue(time_diff)?;
    proof {
        use_type_invariant(&*rewards);
        use_type_invariant(&*inactive_rewards);
        lemma_deep_upsert(rewards@, token_id@, after);
        lemma_deep_upsert(inactive_rewards@, token_id@, after);
    }
    if !is_view && reward.boosted_shares > 0 && after.remaining_rewards == 0 {
        inactive_rewards.insert(token_id.clone(), after);
    } else {
        rewards.insert(token_id.clone(), after);
    }
    Ok(())
}

impl AssetFarm {
    /// A farm without rewards, as of the time `timestamp`.
    pub fn new(timestamp: Timestamp) -> (r: AssetFarm)
        ensures
            r@ == (AssetFarmModel {
                block_timestamp: timestamp,
                rewards: Seq::<(Seq<char>, AssetFarmReward)>::empty(),
                inactive_rewards: Seq::<(Seq<char>, AssetFarmReward)>::empty(),
            }),
    {
        AssetFarm {
            block_timestamp: timestamp,
            rewards: StrMap::new(),
            inactive_rewards: StrMap::new(),
        }
    }

    /// Adds `reward_amount` to what the farm has to pay in
    /// `reward_token_id`, and sets the rate and the boost of that reward.
    /// A reward that the farm had stopped paying is paid again.
    pub fn add_reward(
        &mut self,
        reward_token_id: &TokenId,
        new_reward_per_day: Balance,
        new_booster_log_base: Balance,
        reward_amount: Balance,
    ) -> (r: Result<(), Error>)
        ensures
            match old(self)@.values().reward_added(
                reward_token_id@,
                new_reward_per_day,
                new_booster_log_base,
                reward_amount,
            ) {
                Ok(v) => r is Ok && final(self)@.values() == v,
                Err(e) => r == Err::<(), Error>(e) && *final(self) == *old(self),
            },
    {
        proof {
            use_type_invariant(&self.rewards);
            use_type_invariant(&self.inactive_rewards);
            lemma_deep(self.rewards@, reward_token_id@);
            lemma_deep(self.inactive_rewards@, reward_token_id@);
        }
        let before = match self.rewards.get(reward_token_id) {
            Some(r) => *r,
            None => match self.inactive_rewards.get(reward_token_id) {
                Some(r) => *r,
                None => AssetFarmReward {
                    reward_per_day: 0,
                    booster_log_base: 0,
                    remaining_rewards: 0,
                    boosted_shares: 0,
                    reward_per_share: BigDecimal::zero(),
                },
            },
        };
        if reward_amount > u128::MAX - before.remaining_rewards {
            return Err(Error::Overflow);
        }
        let after = AssetFarmReward {
            reward_per_day: new_reward_per_day,
            booster_log_base: new_booster_log_base,
            remaining_rewards: before.remaining_rewards + reward_amount,
            boosted_shares: before.boosted_shares,
            reward_per_share: before.reward_per_share,
        };
        proof {
            lemma_deep_upsert(self.rewards@, reward_token_id@, after);
        }
        self.inactive_rewards.remove(reward_token_id);
        self.rewards.insert(reward_token_id.clone(), after);
        Ok(())
    }

    /// Brings the farm up to the time `now`; `is_view` says that the farm
    /// is only looked at.  A farm that cannot be brought there is left as
    /// it was.
    #[verifier::loop_isolation(false)]
    pub fn update(&mut self, now: Timestamp, is_view: bool) -> (r: Result<(), Error>)
        ensures
            match old(self)@.values().updated(now, is_view) {
                Ok(v) => r is Ok && final(self)@.values() == v,
                Err(e) => r == Err::<(), Error>(e) && *final(self) == *old(self),
            },
    {
        if now < self.block_timestamp {
            return Err(Error::ClockWentBack);
        }
        if now == self.block_timestamp {
            return Ok(());
        }
        let time_diff: u64 = now - self.block_timestamp;
        let mut rewards: StrMap<AssetFarmReward> = StrMap::new();
        let mut inactive_rewards = self.inactive_rewards.clone();
        assert(inactive_rewards@ =~= self.inactive_rewards@);
        let ghost items = deep(self.rewards@);
        let ghost init = UpdateState {
            rewards: Seq::<(Seq<char>, AssetFarmRewardModel)>::empty(),
            inactive_rewards: deep(self.inactive_rewards@),
        };
        assert(deep(rewards@) =~= init.rewards);
        let mut i: usize = 0;
        while i < self.rewards.len()
            invariant
                i <= items.len(),
                *self == *old(self),
                fold_results(init, items, update_step(time_diff as nat, is_view), i as nat) == Ok::<
                    UpdateState,
                    Error,
                >(
                    UpdateState {
                        rewards: deep(rewards@),
                        inactive_rewards: deep(inactive_rewards@),
                    },
                ),
            decreases items.len() - i,
        {
            proof {
                lemma_fold_sticky(
                    init,
                    items,
                    update_step(time_diff as nat, is_view),
                    (i + 1) as nat,
                    items.len(),
                );
            }
            update_one(
                &mut rewards,
                &mut inactive_rewards,
                self.rewards.key_at(i),
                self.rewards.value_at(i),
                time_diff,
                is_view,
            )?;
            i += 1;
        }
        self.block_timestamp = now;
        self.rewards = rewards;
        self.inactive_rewards = inactive_rewards;
        Ok(())
    }

    /// The inactive reward under `token_id`, if there is one.
    pub fn internal_get_inactive_asset_farm_reward(&self, token_id: &String) -> (r: Option<
        AssetFarmReward,
    >)
        ensures
            r == crate::str_map::lookup(self@.inactive_rewards, token_id@),
    {
        match self.inactive_rewards.get(token_id) {
            Some(x) => Some(*x),
            None => None,
        }
    }
}

} // verus!

//! What an account can claim of a farm.

use crate::account::{Account, AccountModel};
use crate::account_farm::{AccountFarm, AccountFarmModel, AccountFarmReward, FarmId, FarmKey};
use crate::asset_farm::{AssetFarm, AssetFarmModel, AssetFarmReward};
use crate::big_decimal::{fit_u128, round_mul, spec_sub};
use crate::contract::Contract;
use crate::error::Error;
use crate::fold::{fold_results, lemma_fold_sticky};
use crate::pool::Balance;
use crate::str_map::{lookup, upsert, without, Entries, StrMap};
use crate::utils::{Timestamp, TokenId};
use vstd::prelude::*;

verus! {

/// A claim under way: the account's new state in the farm, what is left of
/// its old one, what it gets, and the shares that it held of rewards that
/// the farm has stopped paying.
pub struct ClaimState {
    pub rewards: Entries<AccountFarmReward>,
    pub old_rewards: Entries<AccountFarmReward>,
    pub new_rewards: Seq<(Seq<char>, Balance)>,
    pub inactive_rewards: Seq<(Seq<char>, Balance)>,
}

/// What `shares` have earned while the reward per share went from `last`
/// to `now`.
pub open spec fn earned(now: nat, last: nat, shares: Balance) -> Result<Balance, Error> {
    match spec_sub(now, last) {
        Err(e) => Err(e),
        Ok(diff) => fit_u128(round_mul(diff, shares as nat)),
    }
}

/// The list of payments with `amount` of `token_id` added, unless the
/// amount is zero.
pub open spec fn with_payment(
    payments: Seq<(Seq<char>, Balance)>,
    token_id: Seq<char>,
    amount: Balance,
) -> Seq<(Seq<char>, Balance)> {
    if amount > 0 {
        payments.push((token_id, amount))
    } else {
        payments
    }
}

/// The claim after one reward that the farm pays: the account gets what its
/// shares have earned since it last claimed, and starts anew from the
/// farm's present reward per share.
#[verifier::opaque]
pub open spec fn active_claimed(s: ClaimState, entry: (Seq<char>, AssetFarmReward)) -> Result<
    ClaimState,
    Error,
> {
    match lookup(s.old_rewards, entry.0) {
        Some(held) => match earned(
            entry.1.reward_per_share@,
            held.last_reward_per_share@,
            held.boosted_shares,
        ) {
            Err(e) => Err(e),
            Ok(amount) => Ok(
                ClaimState {
                    rewards: upsert(
                        s.rewards,
                        entry.0,
                        AccountFarmReward {
                            boosted_shares: held.boosted_shares,
                            last_reward_per_share: entry.1.reward_per_share,
                        },
                    ),
                    old_rewards: without(s.old_rewards, entry.0),
                    new_rewards: with_payment(s.new_rewards, entry.0, amount),
                    inactive_rewards: s.inactive_rewards,
                },
            ),
        },
        None => Ok(
            ClaimState {
                rewards: upsert(
                    s.rewards,
                    entry.0,
                    AccountFarmReward {
                        boosted_shares: 0,
                        last_reward_per_share: entry.1.reward_per_share,
                    },
                ),
                ..s
            },
        ),
    }
}

/// The claim after one reward that the farm has stopped paying: the account
/// gets what its shares had earned, and its shares are noted.
#[verifier::opaque]
pub open spec fn inactive_claimed(
    inactive: Entries<AssetFarmReward>,
    s: ClaimState,
    entry: (Seq<char>, AccountFarmReward),
) -> Result<ClaimState, Error> {
    match lookup(inactive, entry.0) {
        None => Err(Error::FarmRewardNotFound),
        Some(reward) => match earned(
            reward.reward_per_share@,
            entry.1.last_reward_per_share@,
            entry.1.boosted_shares,
        ) {
            Err(e) => Err(e),
            Ok(amount) => Ok(
                ClaimState {
                    new_rewards: with_payment(s.new_rewards, entry.0, amount),
                    inactive_rewards: s.inactive_rewards.push((entry.0, entry.1.boosted_shares)),
                    ..s
                },
            ),
        },
    }
}

/// `active_claimed` as the step of a fold.
pub open spec fn active_step() -> spec_fn(ClaimState, (Seq<char>, AssetFarmReward)) -> Result<
    ClaimState,
    Error,
> {
    |s: ClaimState, entry: (Seq<char>, AssetFarmReward)| active_claimed(s, entry)
}

/// `inactive_claimed` as the step of a fold.
pub open spec fn inactive_step(inactive: Entries<AssetFarmReward>) -> spec_fn(
    ClaimState,
    (Seq<char>, AccountFarmReward),
) -> Result<ClaimState, Error> {
    |s: ClaimState, entry: (Seq<char>, AccountFarmReward)| inactive_claimed(inactive, s, entry)
}

/// The state of an account in the farm `farm`: the first that it holds
/// under that key, or that of an account that has never claimed.
pub open spec fn farm_of(farms: Seq<(FarmKey, AccountFarmModel)>, farm: FarmKey, n: nat) -> AccountFarmModel
    decreases farms.len() - n,
{
    if n >= farms.len() {
        AccountFarmModel { block_timestamp: 0, rewards: Seq::<(Seq<char>, AccountFarmReward)>::empty() }
    } else if farms[n as int].0 == farm {
        farms[n as int].1
    } else {
        farm_of(farms, farm, n + 1)
    }
}

/// What a claim of the farm `farm` at the time `now` leaves: the account's
/// new state in the farm, what it gets of each reward token, and the
/// shares that it held of rewards that the farm has stopped paying.  An
/// account that has claimed at this very time gets nothing more.
pub open spec fn spec_farm_claim(
    account: AccountModel,
    farm: FarmKey,
    asset_farm: AssetFarmModel,
    now: Timestamp,
) -> Result<(AccountFarmModel, Seq<(Seq<char>, Balance)>, Seq<(Seq<char>, Balance)>), Error> {
    let held = farm_of(account.farms, farm, 0);
    let none = Seq::<(Seq<char>, Balance)>::empty();
    if held.block_timestamp == now {
        Ok((held, none, none))
    } else {
        match fold_results(
            ClaimState {
                rewards: Seq::<(Seq<char>, AccountFarmReward)>::empty(),
                old_rewards: held.rewards,
                new_rewards: none,
                inactive_rewards: none,
            },
            asset_farm.rewards,
            active_step(),
            asset_farm.rewards.len(),
        ) {
            Err(e) => Err(e),
            Ok(s1) => match fold_results(
                s1,
                s1.old_rewards,
                inactive_step(asset_farm.inactive_rewards),
                s1.old_rewards.len(),
            ) {
                Err(e) => Err(e),
                Ok(s2) => Ok(
                    (
                        AccountFarmModel { block_timestamp: now, rewards: s2.rewards },
                        s2.new_rewards,
                        s2.inactive_rewards,
                    ),
                ),
            },
        }
    }
}

/// A list of payments as the contracts see it.
pub open spec fn payments_view(payments: Seq<(TokenId, Balance)>) -> Seq<(Seq<char>, Balance)> {
    Seq::new(payments.len(), |i: int| (payments[i].0@, payments[i].1))
}

/// Adds a payment to the list, unless its amount is zero.
fn push_payment(payments: &mut Vec<(TokenId, Balance)>, token_id: TokenId, amount: Balance)
    ensures
        payments_view(final(payments)@) == with_payment(
            payments_view(old(payments)@),
            token_id@,
            amount,
        ),
{
    if amount > 0 {
        let ghost before = payments@;
        payments.push((token_id, amount));
        assert(payments_view(payments@) =~= payments_view(before).push((token_id@, amount)));
    }
}

/// What `shares` have earned while the reward per share went from `last` to
/// `now`.
fn earned_amount(
    now: &crate::big_decimal::BigDecimal,
    last: &crate::big_decimal::BigDecimal,
    shares: Balance,
) -> (r: Result<Balance, Error>)
    ensures
        r == earned(now@, last@, shares),
{
    let diff = now.checked_sub(last)?;
    diff.round_mul_u128(shares)
}

impl Account {
    /// The account's state in the farm `farm_id`: that of an account that
    /// has never claimed, if it holds none.
    pub fn farm_or_default(&self, farm_id: &FarmId) -> (r: AccountFarm)
        ensures
            r@ == farm_of(self@.farms, farm_id@, 0),
    {
        let mut i: usize = 0;
        while i < self.farms.len()
            invariant
                i <= self.farms@.len(),
                farm_of(self@.farms, farm_id@, 0) == farm_of(self@.farms, farm_id@, i as nat),
            decreases self.farms@.len() - i,
        {
            if self.farms[i].farm_id == *farm_id {
                return self.farms[i].farm.clone();
            }
            i += 1;
        }
        AccountFarm::new()
    }
}

impl Contract {
    /// One step of a claim, for a reward that the farm pays.
    fn claim_active(
        rewards: &mut StrMap<AccountFarmReward>,
        old_rewards: &mut StrMap<AccountFarmReward>,
        new_rewards: &mut Vec<(TokenId, Balance)>,
        token_id: &TokenId,
        reward: &AssetFarmReward,
        inactive: Ghost<Seq<(Seq<char>, Balance)>>,
    ) -> (r: Result<(), Error>)
        ensures
            match active_claimed(
                ClaimState {
                    rewards: old(rewards)@,
                    old_rewards: old(old_rewards)@,
                    new_rewards: payments_view(old(new_rewards)@),
                    inactive_rewards: inactive@,
                },
                (token_id@, *reward),
            ) {
                Ok(s) => r is Ok && s == (ClaimState {
                    rewards: final(rewards)@,
                    old_rewards: final(old_rewards)@,
                    new_rewards: payments_view(final(new_rewards)@),
                    inactive_rewards: inactive@,
                }),
                Err(e) => r == Err::<(), Error>(e),
            },
    {
        proof {
            reveal(active_claimed);
        }
        let boosted_shares = match old_rewards.get(token_id) {
            Some(held) => {
                let held = *held;
                let amount = earned_amount(
                    &reward.reward_per_share,
                    &held.last_reward_per_share,
                    held.boosted_shares,
                )?;
                old_rewards.remove(token_id);
                push_payment(new_rewards, token_id.clone(), amount);
                held.boosted_shares
            },
            None => 0,
        };
        rewards.insert(
            token_id.clone(),
            AccountFarmReward { boosted_shares, last_reward_per_share: reward.reward_per_share },
        );
        Ok(())
    }

    /// One step of a claim, for a reward that the farm has stopped paying.
    fn claim_inactive(
        asset_farm: &AssetFarm,
        new_rewards: &mut Vec<(TokenId, Balance)>,
        inactive_rewards: &mut Vec<(TokenId, Balance)>,
        token_id: &TokenId,
        held: &AccountFarmReward,
        rewards: Ghost<Entries<AccountFarmReward>>,
        old_rewards: Ghost<Entries<AccountFarmReward>>,
    ) -> (r: Result<(), Error>)
        ensures
            match inactive_claimed(
                asset_farm@.inactive_rewards,
                ClaimState {
                    rewards: rewards@,
                    old_rewards: old_rewards@,
                    new_rewards: payments_view(old(new_rewards)@),
                    inactive_rewards: payments_view(old(inactive_rewards)@),
                },
                (token_id@, *held),
            ) {
                Ok(s) => r is Ok && s == (ClaimState {
                    rewards: rewards@,
                    old_rewards: old_rewards@,
                    new_rewards: payments_view(final(new_rewards)@),
                    inactive_rewards: payments_view(final(inactive_rewards)@),
                }),
                Err(e) => r == Err::<(), Error>(e),
            },
    {
        proof {
            reveal(inactive_claimed);
        }
        let reward = match asset_farm.internal_get_inactive_asset_farm_reward(token_id) {
            Some(r) => r,
            None => {
                return Err(Error::FarmRewardNotFound);
            },
        };
        let amount = earned_amount(
            &reward.reward_per_share,
            &held.last_reward_per_share,
            held.boosted_shares,
        )?;
        let ghost before = inactive_rewards@;
        inactive_rewards.push((token_id.clone(), held.boosted_shares));
        assert(payments_view(inactive_rewards@) =~= payments_view(before).push(
            (token_id@, held.boosted_shares),
        ));
        push_payment(new_rewards, token_id.clone(), amount);
        Ok(())
    }

    /// What the account can claim of the farm `farm_id` at the time of the
    /// call: its new state in the farm, what it gets of each reward token,
    /// and the shares that it held of rewards that the farm has stopped
    /// paying.
    #[verifier::loop_isolation(false)]
    pub fn internal_account_farm_claim(
        &self,
        account: &Account,
        farm_id: &FarmId,
        asset_farm: &AssetFarm,
    ) -> (r: Result<(AccountFarm, Vec<(TokenId, Balance)>, Vec<(TokenId, Balance)>), Error>)
        ensures
            match spec_farm_claim(account@, farm_id@, asset_farm@, self.block_timestamp) {
                Ok((farm, new_rewards, inactive_rewards)) => r matches Ok(x) && x.0@ == farm
                    && payments_view(x.1@) == new_rewards && payments_view(x.2@)
                    == inactive_rewards,
                Err(e) => r matches Err(e2) && e2 == e,
            },
    {
        let mut new_rewards: Vec<(TokenId, Balance)> = Vec::new();
        let mut inactive_rewards: Vec<(TokenId, Balance)> = Vec::new();
        let block_timestamp = self.block_timestamp;
        let account_farm = account.farm_or_default(farm_id);
        let ghost none = Seq::<(Seq<char>, Balance)>::empty();
        assert(payments_view(new_rewards@) =~= none);
        assert(payments_view(inactive_rewards@) =~= none);
        if account_farm.block_timestamp == block_timestamp {
            return Ok((account_farm, new_rewards, inactive_rewards));
        }
        let ghost init = ClaimState {
            rewards: Seq::<(Seq<char>, AccountFarmReward)>::empty(),
            old_rewards: account_farm@.rewards,
            new_rewards: none,
            inactive_rewards: none,
        };
        let mut old_rewards = account_farm.rewards;
        let mut rewards: StrMap<AccountFarmReward> = StrMap::new();
        let mut i: usize = 0;
        while i < asset_farm.rewards.len()
            invariant
                i <= asset_farm@.rewards.len(),
                payments_view(inactive_rewards@) == none,
                fold_results(init, asset_farm@.rewards, active_step(), i as nat) == Ok::<
                    ClaimState,
                    Error,
                >(
                    ClaimState {
                        rewards: rewards@,
                        old_rewards: old_rewards@,
                        new_rewards: payments_view(new_rewards@),
                        inactive_rewards: none,
                    },
                ),
            decreases asset_farm@.rewards.len() - i,
        {
            proof {
                lemma_fold_sticky(
                    init,
                    asset_farm@.rewards,
                    active_step(),
                    (i + 1) as nat,
                    asset_farm@.rewards.len(),
                );
            }
            Self::claim_active(
                &mut rewards,
                &mut old_rewards,
                &mut new_rewards,
                asset_farm.rewards.key_at(i),
                asset_farm.rewards.value_at(i),
                Ghost(none),
            )?;
            i += 1;
        }
        let ghost middle = ClaimState {
            rewards: rewards@,
            old_rewards: old_rewards@,
            new_rewards: payments_view(new_rewards@),
            inactive_rewards: none,
        };
        let mut i: usize = 0;
        while i < old_rewards.len()
            invariant
                i <= old_rewards@.len(),
                fold_results(
                    middle,
                    old_rewards@,
                    inactive_step(asset_farm@.inactive_rewards),
                    i as nat,
                ) == Ok::<ClaimState, Error>(
                    ClaimState {
                        rewards: rewards@,
                        old_rewards: old_rewards@,
                        new_rewards: payments_view(new_rewards@),
                        inactive_rewards: payments_view(inactive_rewards@),
                    },
                ),
            decreases old_rewards@.len() - i,
        {
            proof {
                lemma_fold_sticky(
                    middle,
                    old_rewards@,
                    inactive_step(asset_farm@.inactive_rewards),
                    (i + 1) as nat,
                    old_rewards@.len(),
                );
            }
            Self::claim_inactive(
                asset_farm,
                &mut new_rewards,
                &mut inactive_rewards,
                old_rewards.key_at(i),
                old_rewards.value_at(i),
                Ghost(rewards@),
                Ghost(old_rewards@),
            )?;
            i += 1;
        }
        Ok((AccountFarm { block_timestamp, rewards }, new_rewards, inactive_rewards))
    }
}

} // verus!

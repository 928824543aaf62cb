//! The weight of an account in a farm, set anew after a claim.
//!
//! A farm pays each account by its boosted shares: the shares of the
//! position that the farm rewards, and what a stake of booster tokens adds
//! to them.  When the position has changed, the account claims what it has
//! earned and is then weighed anew.  What the stake adds is a logarithm,
//! which the caller works out; whether it counts is decided here.

use crate::account::{insert_farm, with_farm, Account, AccountModel};
use crate::account_farm::{
    farm_keys, farms_view, AccountFarm, AccountFarmEntry, AccountFarmModel, AccountFarmReward, FarmId,
    FarmKey,
};
use crate::account_nft_asset::AccountNFTAsset;
use crate::actions::NFT_BALANCE;
use crate::asset_farm::{AssetFarm, AssetFarmModel, AssetFarmReward};
use crate::contract::Contract;
use crate::error::Error;
use crate::farm_claim::payments_view;
use crate::fold::{fold_results, lemma_fold_sticky};
use crate::pool::{Balance, Shares};
use crate::prices::{exp10, pow10};
use crate::str_map::{lookup, upsert, Entries, StrMap};
use crate::utils::TokenId;
use vstd::prelude::*;

verus! {

/// How many of the first `n` tokens belong to the contract.
pub open spec fn nft_count(nfts: Entries<AccountNFTAsset>, contract: Seq<char>, n: nat) -> nat
    decreases n,
{
    if n == 0 {
        0
    } else {
        nft_count(nfts, contract, (n - 1) as nat) + (if n <= nfts.len() && nfts[n
            - 1].1.nft_contract_id@ == contract {
            1nat
        } else {
            0nat
        })
    }
}

/// The shares that stand for the tokens of the contract: the balance of one
/// token for each, and no more than a balance can hold.
pub open spec fn nft_shares(nfts: Entries<AccountNFTAsset>, contract: Seq<char>) -> Balance {
    let total = nft_count(nfts, contract, nfts.len()) * (NFT_BALANCE as nat);
    if total <= u128::MAX {
        total as Balance
    } else {
        u128::MAX
    }
}

/// The place of the first farm from `n` on that is kept under `farm`, or
/// the length of the list if there is none.
pub open spec fn farm_index(farms: Seq<(FarmKey, AccountFarmModel)>, farm: FarmKey, n: nat) -> nat
    decreases farms.len() - n,
{
    if n >= farms.len() {
        farms.len()
    } else if farms[n as int].0 == farm {
        n
    } else {
        farm_index(farms, farm, n + 1)
    }
}

/// The farms with `state` under `farm`: in the place of what was there, or
/// at the end.
pub open spec fn farms_with(
    farms: Seq<(FarmKey, AccountFarmModel)>,
    farm: FarmKey,
    state: AccountFarmModel,
) -> Seq<(FarmKey, AccountFarmModel)> {
    let i = farm_index(farms, farm, 0);
    if i < farms.len() {
        farms.update(i as int, (farm, state))
    } else {
        farms.push((farm, state))
    }
}

/// The farms without what was kept under `farm`.
pub open spec fn farms_without(farms: Seq<(FarmKey, AccountFarmModel)>, farm: FarmKey) -> Seq<
    (FarmKey, AccountFarmModel),
> {
    let i = farm_index(farms, farm, 0);
    if i < farms.len() {
        farms.remove(i as int)
    } else {
        farms
    }
}

impl AccountModel {
    /// The shares of the position that `farm` rewards.
    pub open spec fn farm_shares(self, farm: FarmKey) -> Balance {
        match farm {
            FarmKey::Supplied(t) => self.asset_or_default(t).shares.0,
            FarmKey::Borrowed(t) => match lookup(self.borrowed, t) {
                Some(s) => s.0,
                None => 0,
            },
            FarmKey::SuppliedNFT(c) => nft_shares(self.nft_supplied, c),
        }
    }
}

impl Account {
    /// The shares that stand for the account's non-fungible tokens of the
    /// contract.
    pub fn get_nft_supplied_shares(&self, nft_contract_id: &TokenId) -> (r: Shares)
        ensures
            r.0 == nft_shares(self@.nft_supplied, nft_contract_id@),
    {
        let mut shares: u128 = 0;
        let mut i: usize = 0;
        let ghost nfts = self@.nft_supplied;
        let ghost contract = nft_contract_id@;
        while i < self.nft_supplied.len()
            invariant
                i <= nfts.len(),
                nfts == self.nft_supplied@,
                contract == nft_contract_id@,
                shares as nat == (if nft_count(nfts, contract, i as nat) * (NFT_BALANCE as nat)
                    <= u128::MAX {
                    nft_count(nfts, contract, i as nat) * (NFT_BALANCE as nat)
                } else {
                    u128::MAX as nat
                }),
            decreases nfts.len() - i,
        {
            let ghost before = nft_count(nfts, contract, i as nat);
            assert((before + 1) * (NFT_BALANCE as nat) == before * (NFT_BALANCE as nat)
                + NFT_BALANCE as nat) by (nonlinear_arith);
            if self.nft_supplied.value_at(i).nft_contract_id == *nft_contract_id {
                shares = if shares <= u128::MAX - NFT_BALANCE {
                    shares + NFT_BALANCE
                } else {
                    u128::MAX
                };
            }
            i += 1;
        }
        Shares(shares)
    }

    /// The shares of the position that the farm rewards.
    pub fn get_farm_shares(&self, farm_id: &FarmId) -> (r: Balance)
        ensures
            r == self@.farm_shares(farm_id@),
    {
        match farm_id {
            FarmId::Supplied(token_id) => self.get_supplied_shares(token_id).0,
            FarmId::Borrowed(token_id) => self.get_borrowed_shares(token_id).0,
            FarmId::SuppliedNFT(nft_contract_id) => self.get_nft_supplied_shares(
                nft_contract_id,
            ).0,
        }
    }

    /// The place of the account's state in the farm, or the number of its
    /// farms if it has none there.
    pub fn farm_place(&self, farm_id: &FarmId) -> (r: usize)
        ensures
            r == farm_index(self@.farms, farm_id@, 0),
            r <= self.farms@.len(),
    {
        let mut i: usize = 0;
        while i < self.farms.len()
            invariant
                i <= self.farms@.len(),
                farm_index(self@.farms, farm_id@, 0) == farm_index(self@.farms, farm_id@, i as nat),
            decreases self.farms@.len() - i,
        {
            if self.farms[i].farm_id == *farm_id {
                return i;
            }
            i += 1;
        }
        i
    }

    /// Keeps `farm` as the account's state in the farm `farm_id`.
    pub fn internal_set_farm(&mut self, farm_id: &FarmId, farm: AccountFarm)
        ensures
            final(self)@ == (AccountModel {
                farms: farms_with(old(self)@.farms, farm_id@, farm@),
                ..old(self)@
            }),
    {
        let i = self.farm_place(farm_id);
        let ghost before = self.farms@;
        let entry = AccountFarmEntry { farm_id: farm_id.clone(), farm };
        if i < self.farms.len() {
            self.farms.set(i, entry);
            assert(farms_view(self.farms@) =~= farms_view(before).update(
                i as int,
                (farm_id@, farm@),
            ));
        } else {
            self.farms.push(entry);
            assert(farms_view(self.farms@) =~= farms_view(before).push((farm_id@, farm@)));
        }
    }

    /// Drops the account's state in the farm `farm_id`.
    pub fn internal_remove_farm(&mut self, farm_id: &FarmId)
        ensures
            final(self)@ == (AccountModel {
                farms: farms_without(old(self)@.farms, farm_id@),
                ..old(self)@
            }),
    {
        let i = self.farm_place(farm_id);
        let ghost before = self.farms@;
        if i < self.farms.len() {
            self.farms.remove(i);
            assert(farms_view(self.farms@) =~= farms_view(before).remove(i as int));
        }
    }
}

/// What decides the weight of an account in a farm.
pub struct Weight {
    /// The shares of the position that the farm rewards.
    pub shares: Balance,
    /// The boost that the account's stake of booster tokens earns.
    pub booster_balance: Balance,
    /// One whole booster token.
    pub booster_base: Balance,
    /// What the stake would add to the shares, by reward token.
    pub boosts: Entries<Balance>,
}

/// The rewards of a farm and of an account in it, while the account is
/// weighed anew.
pub struct WeighState {
    pub asset_rewards: Entries<AssetFarmReward>,
    pub account_rewards: Entries<AccountFarmReward>,
}

impl Weight {
    /// What the stake adds to the shares for the reward `token_id`: what
    /// the caller worked out, where the reward has a boost and the stake
    /// is more than one whole token, and nothing otherwise.
    pub open spec fn extra(self, token_id: Seq<char>, reward: AssetFarmReward) -> Balance {
        if reward.booster_log_base > 0 && self.booster_balance > self.booster_base {
            match lookup(self.boosts, token_id) {
                Some(b) => b,
                None => 0,
            }
        } else {
            0
        }
    }

    /// The rewards after the account was weighed anew in one of them: its
    /// old shares leave the farm's, and, where it still holds the position,
    /// its new ones join them.
    #[verifier::opaque]
    pub open spec fn reward_weighed(self, s: WeighState, entry: (Seq<char>, AssetFarmReward)) -> Result<
        WeighState,
        Error,
    > {
        match lookup(s.account_rewards, entry.0) {
            None => Err(Error::FarmRewardNotFound),
            Some(held) => if entry.1.boosted_shares < held.boosted_shares {
                Err(Error::Overflow)
            } else {
                let rest = entry.1.boosted_shares - held.boosted_shares;
                let mine = self.shares + self.extra(entry.0, entry.1);
                if self.shares == 0 {
                    Ok(
                        WeighState {
                            asset_rewards: upsert(
                                s.asset_rewards,
                                entry.0,
                                AssetFarmReward { boosted_shares: rest as Balance, ..entry.1 },
                            ),
                            ..s
                        },
                    )
                } else if rest + mine > u128::MAX {
                    Err(Error::Overflow)
                } else {
                    Ok(
                        WeighState {
                            asset_rewards: upsert(
                                s.asset_rewards,
                                entry.0,
                                AssetFarmReward {
                                    boosted_shares: (rest + mine) as Balance,
                                    ..entry.1
                                },
                            ),
                            account_rewards: upsert(
                                s.account_rewards,
                                entry.0,
                                AccountFarmReward { boosted_shares: mine as Balance, ..held },
                            ),
                        },
                    )
                }
            },
        }
    }

    /// `reward_weighed` as the step of a fold.
    pub open spec fn weigh_step(self) -> spec_fn(WeighState, (Seq<char>, AssetFarmReward)) -> Result<
        WeighState,
        Error,
    > {
        |s: WeighState, entry: (Seq<char>, AssetFarmReward)| self.reward_weighed(s, entry)
    }
}

/// The inactive rewards of a farm after the shares that an account held of
/// one of them have left it.
pub open spec fn shares_released(
    inactive: Entries<AssetFarmReward>,
    entry: (Seq<char>, Balance),
) -> Result<Entries<AssetFarmReward>, Error> {
    match lookup(inactive, entry.0) {
        None => Err(Error::FarmRewardNotFound),
        Some(reward) => if reward.boosted_shares < entry.1 {
            Err(Error::Overflow)
        } else {
            Ok(
                upsert(
                    inactive,
                    entry.0,
                    AssetFarmReward {
                        boosted_shares: (reward.boosted_shares - entry.1) as Balance,
                        ..reward
                    },
                ),
            )
        },
    }
}

/// `shares_released` as the step of a fold.
pub open spec fn release_step() -> spec_fn(Entries<AssetFarmReward>, (Seq<char>, Balance)) -> Result<
    Entries<AssetFarmReward>,
    Error,
> {
    |s: Entries<AssetFarmReward>, entry: (Seq<char>, Balance)| shares_released(s, entry)
}

/// The account and the farm after the account, having claimed
/// `account_farm` of the farm, was weighed anew by the position that it
/// holds now.  An account that holds the position no more leaves the
/// farm.
pub open spec fn spec_farm_settle(
    account: AccountModel,
    farm: FarmKey,
    account_farm: AccountFarmModel,
    asset_farm: AssetFarmModel,
    inactive_rewards: Seq<(Seq<char>, Balance)>,
    boosts: Entries<Balance>,
    booster_decimals: u8,
) -> Result<(AccountModel, AssetFarmModel), Error> {
    if booster_decimals > 38 {
        Err(Error::Overflow)
    } else {
        let weight = Weight {
            shares: account.farm_shares(farm),
            booster_balance: match account.booster_staking {
                Some(b) => b.x_booster_amount,
                None => 0,
            },
            booster_base: pow10(booster_decimals as nat) as Balance,
            boosts,
        };
        match fold_results(
            WeighState {
                asset_rewards: asset_farm.rewards,
                account_rewards: account_farm.rewards,
            },
            asset_farm.rewards,
            weight.weigh_step(),
            asset_farm.rewards.len(),
        ) {
            Err(e) => Err(e),
            Ok(s) => match fold_results(
                asset_farm.inactive_rewards,
                inactive_rewards,
                release_step(),
                inactive_rewards.len(),
            ) {
                Err(e) => Err(e),
                Ok(inactive) => Ok(
                    (
                        AccountModel {
                            farms: if weight.shares > 0 {
                                farms_with(
                                    account.farms,
                                    farm,
                                    AccountFarmModel {
                                        block_timestamp: account_farm.block_timestamp,
                                        rewards: s.account_rewards,
                                    },
                                )
                            } else {
                                farms_without(account.farms, farm)
                            },
                            ..account
                        },
                        AssetFarmModel {
                            block_timestamp: asset_farm.block_timestamp,
                            rewards: s.asset_rewards,
                            inactive_rewards: inactive,
                        },
                    ),
                ),
            },
        }
    }
}

/// Weighs the account anew in one reward of a farm.
fn weigh_one(
    asset_rewards: &mut StrMap<AssetFarmReward>,
    account_rewards: &mut StrMap<AccountFarmReward>,
    token_id: &TokenId,
    reward: &AssetFarmReward,
    shares: Balance,
    booster_balance: Balance,
    booster_base: Balance,
    boosts: &StrMap<Balance>,
) -> (r: Result<(), Error>)
    ensures
        match (Weight { shares, booster_balance, booster_base, boosts: boosts@ }).reward_weighed(
            WeighState {
                asset_rewards: old(asset_rewards)@,
                account_rewards: old(account_rewards)@,
            },
            (token_id@, *reward),
        ) {
            Ok(s) => r is Ok && s == (WeighState {
                asset_rewards: final(asset_rewards)@,
                account_rewards: final(account_rewards)@,
            }),
            Err(e) => r == Err::<(), Error>(e),
        },
{
    proof {
        reveal(Weight::reward_weighed);
    }
    let held = match account_rewards.get(token_id) {
        Some(held) => *held,
        None => {
            return Err(Error::FarmRewardNotFound);
        },
    };
    if reward.boosted_shares < held.boosted_shares {
        return Err(Error::Overflow);
    }
    let rest: u128 = reward.boosted_shares - held.boosted_shares;
    let mut boosted_shares: u128 = rest;
    if shares > 0 {
        let extra: u128 = if reward.booster_log_base > 0 && booster_balance > booster_base {
            match boosts.get(token_id) {
                Some(b) => *b,
                None => 0,
            }
        } else {
            0
        };
        if extra > u128::MAX - shares {
            return Err(Error::Overflow);
        }
        let mine: u128 = shares + extra;
        if mine > u128::MAX - rest {
            return Err(Error::Overflow);
        }
        boosted_shares = rest + mine;
        account_rewards.insert(
            token_id.clone(),
            AccountFarmReward {
                boosted_shares: mine,
                last_reward_per_share: held.last_reward_per_share,
            },
        );
    }
    asset_rewards.insert(
        token_id.clone(),
        AssetFarmReward {
            reward_per_day: reward.reward_per_day,
            booster_log_base: reward.booster_log_base,
            remaining_rewards: reward.remaining_rewards,
            boosted_shares,
            reward_per_share: reward.reward_per_share,
        },
    );
    Ok(())
}

/// Takes the shares that an account held of an inactive reward out of it.
fn release_one(inactive: &mut StrMap<AssetFarmReward>, token_id: &TokenId, shares: Balance) -> (r:
    Result<(), Error>)
    ensures
        match shares_released(old(inactive)@, (token_id@, shares)) {
            Ok(s) => r is Ok && final(inactive)@ == s,
            Err(e) => r == Err::<(), Error>(e),
        },
{
    let reward = match inactive.get(token_id) {
        Some(reward) => *reward,
        None => {
            return Err(Error::FarmRewardNotFound);
        },
    };
    if reward.boosted_shares < shares {
        return Err(Error::Overflow);
    }
    inactive.insert(
        token_id.clone(),
        AssetFarmReward {
            reward_per_day: reward.reward_per_day,
            booster_log_base: reward.booster_log_base,
            remaining_rewards: reward.remaining_rewards,
            boosted_shares: reward.boosted_shares - shares,
            reward_per_share: reward.reward_per_share,
        },
    );
    Ok(())
}

impl Contract {
    /// Weighs the account anew in the farm `farm_id`, after it has claimed
    /// `account_farm` of it and was found to have held `inactive_rewards`
    /// of rewards that the farm has stopped paying.  `boosts` holds, for
    /// each reward token, what the account's stake of booster tokens would
    /// add to its shares.  Where this fails, the account and the farm are
    /// left as they were.
    #[verifier::loop_isolation(false)]
    pub fn internal_account_farm_settle(
        &self,
        account: &mut Account,
        farm_id: &FarmId,
        account_farm: AccountFarm,
        asset_farm: &mut AssetFarm,
        inactive_rewards: &Vec<(TokenId, Balance)>,
        boosts: &StrMap<Balance>,
    ) -> (r: Result<(), Error>)
        ensures
            match spec_farm_settle(
                old(account)@,
                farm_id@,
                account_farm@,
                old(asset_farm)@,
                payments_view(inactive_rewards@),
                boosts@,
                self.config.booster_decimals,
            ) {
                Ok((a, f)) => r is Ok && final(account)@ == a && final(asset_farm)@ == f,
                Err(e) => r == Err::<(), Error>(e) && *final(account) == *old(account)
                    && *final(asset_farm) == *old(asset_farm),
            },
    {
        if self.config.booster_decimals > 38 {
            return Err(Error::Overflow);
        }
        let shares = account.get_farm_shares(farm_id);
        let booster_balance: u128 = match account.booster_staking {
            Some(b) => b.x_booster_amount,
            None => 0,
        };
        let booster_base = exp10(self.config.booster_decimals);
        let ghost weight = Weight { shares, booster_balance, booster_base, boosts: boosts@ };
        let ghost start = WeighState {
            asset_rewards: asset_farm@.rewards,
            account_rewards: account_farm@.rewards,
        };
        let block_timestamp = account_farm.block_timestamp;
        let mut account_rewards = account_farm.rewards;
        let mut asset_rewards = asset_farm.rewards.clone();
        assert(asset_rewards@ =~= asset_farm@.rewards);
        let mut i: usize = 0;
        while i < asset_farm.rewards.len()
            invariant
                i <= asset_farm@.rewards.len(),
                *asset_farm == *old(asset_farm),
                *account == *old(account),
                fold_results(start, asset_farm@.rewards, weight.weigh_step(), i as nat) == Ok::<
                    WeighState,
                    Error,
                >(WeighState { asset_rewards: asset_rewards@, account_rewards: account_rewards@ }),
            decreases asset_farm@.rewards.len() - i,
        {
            proof {
                lemma_fold_sticky(
                    start,
                    asset_farm@.rewards,
                    weight.weigh_step(),
                    (i + 1) as nat,
                    asset_farm@.rewards.len(),
                );
            }
            weigh_one(
                &mut asset_rewards,
                &mut account_rewards,
                asset_farm.rewards.key_at(i),
                asset_farm.rewards.value_at(i),
                shares,
                booster_balance,
                booster_base,
                boosts,
            )?;
            i += 1;
        }
        let mut inactive = asset_farm.inactive_rewards.clone();
        assert(inactive@ =~= asset_farm@.inactive_rewards);
        let ghost released = payments_view(inactive_rewards@);
        let mut i: usize = 0;
        while i < inactive_rewards.len()
            invariant
                i <= released.len(),
                *asset_farm == *old(asset_farm),
                *account == *old(account),
                fold_results(asset_farm@.inactive_rewards, released, release_step(), i as nat)
                    == Ok::<Entries<AssetFarmReward>, Error>(inactive@),
            decreases released.len() - i,
        {
            proof {
                lemma_fold_sticky(
                    asset_farm@.inactive_rewards,
                    released,
                    release_step(),
                    (i + 1) as nat,
                    released.len(),
                );
            }
            release_one(&mut inactive, &inactive_rewards[i].0, inactive_rewards[i].1)?;
            i += 1;
        }
        asset_farm.rewards = asset_rewards;
        asset_farm.inactive_rewards = inactive;
        if shares > 0 {
            account.internal_set_farm(
                farm_id,
                AccountFarm { block_timestamp, rewards: account_rewards },
            );
        } else {
            account.internal_remove_farm(farm_id);
        }
        Ok(())
    }
}

/// The marks of an account and the payments that it is due, while what it
/// has claimed of a farm is added to them.
pub struct NoteState {
    /// The farms that are marked in the account.
    pub affected_farms: Seq<FarmKey>,
    /// What the account is due of each token.
    pub all_rewards: Entries<Balance>,
    /// The farms that were marked on the way.
    pub added: Seq<FarmKey>,
}

/// The state after one payment was added: the account is due that much
/// more of the token, and the farm of those who supply the token is
/// marked, for the payment may change what the account has supplied.
pub open spec fn reward_noted(s: NoteState, entry: (Seq<char>, Balance)) -> Result<NoteState, Error> {
    let due = (match lookup(s.all_rewards, entry.0) {
        Some(x) => x,
        None => 0,
    }) + entry.1;
    let farm = FarmKey::Supplied(entry.0);
    if due > u128::MAX {
        Err(Error::Overflow)
    } else {
        Ok(
            NoteState {
                affected_farms: with_farm(s.affected_farms, farm),
                all_rewards: upsert(s.all_rewards, entry.0, due as Balance),
                added: if s.affected_farms.contains(farm) {
                    s.added
                } else {
                    s.added.push(farm)
                },
            },
        )
    }
}

/// `reward_noted` as the step of a fold.
pub open spec fn note_step() -> spec_fn(NoteState, (Seq<char>, Balance)) -> Result<NoteState, Error> {
    |s: NoteState, entry: (Seq<char>, Balance)| reward_noted(s, entry)
}

/// Adds one payment to what an account is due.
fn note_one(
    marked: &mut Vec<FarmId>,
    all_rewards: &mut StrMap<Balance>,
    added: &mut Vec<FarmId>,
    token_id: &TokenId,
    amount: Balance,
) -> (r: Result<(), Error>)
    ensures
        match reward_noted(
            NoteState {
                affected_farms: farm_keys(old(marked)@),
                all_rewards: old(all_rewards)@,
                added: farm_keys(old(added)@),
            },
            (token_id@, amount),
        ) {
            Ok(s) => r is Ok && s == (NoteState {
                affected_farms: farm_keys(final(marked)@),
                all_rewards: final(all_rewards)@,
                added: farm_keys(final(added)@),
            }),
            Err(e) => r == Err::<(), Error>(e),
        },
{
    let so_far: u128 = match all_rewards.get(token_id) {
        Some(x) => *x,
        None => 0,
    };
    if amount > u128::MAX - so_far {
        return Err(Error::Overflow);
    }
    all_rewards.insert(token_id.clone(), so_far + amount);
    if insert_farm(marked, FarmId::Supplied(token_id.clone())) {
        let ghost before = added@;
        added.push(FarmId::Supplied(token_id.clone()));
        assert(farm_keys(added@) =~= farm_keys(before).push(FarmKey::Supplied(token_id@)));
    }
    Ok(())
}

impl Account {
    /// Adds what the account has claimed of a farm to what it is due, and
    /// marks the farms that the payments may affect.  Gives the farms that
    /// were not marked before.  Where a sum cannot be held, nothing is
    /// changed.
    #[verifier::loop_isolation(false)]
    pub fn internal_note_rewards(
        &mut self,
        all_rewards: &mut StrMap<Balance>,
        new_rewards: &Vec<(TokenId, Balance)>,
    ) -> (r: Result<Vec<FarmId>, Error>)
        ensures
            match fold_results(
                NoteState {
                    affected_farms: old(self)@.affected_farms,
                    all_rewards: old(all_rewards)@,
                    added: Seq::<FarmKey>::empty(),
                },
                payments_view(new_rewards@),
                note_step(),
                new_rewards@.len(),
            ) {
                Ok(s) => r matches Ok(added) && farm_keys(added@) == s.added
                    && final(self)@ == (AccountModel {
                    affected_farms: s.affected_farms,
                    ..old(self)@
                }) && final(all_rewards)@ == s.all_rewards,
                Err(e) => r matches Err(e2) && e2 == e && *final(self) == *old(self)
                    && *final(all_rewards) == *old(all_rewards),
            },
    {
        let mut marked = self.affected_farms.clone();
        let mut totals = all_rewards.clone();
        let mut added: Vec<FarmId> = Vec::new();
        let ghost items = payments_view(new_rewards@);
        let ghost init = NoteState {
            affected_farms: self@.affected_farms,
            all_rewards: all_rewards@,
            added: Seq::<FarmKey>::empty(),
        };
        assert(farm_keys(marked@) =~= self@.affected_farms);
        assert(totals@ =~= all_rewards@);
        assert(farm_keys(added@) =~= init.added);
        let mut i: usize = 0;
        while i < new_rewards.len()
            invariant
                i <= items.len(),
                *self == *old(self),
                *all_rewards == *old(all_rewards),
                fold_results(init, items, note_step(), i as nat) == Ok::<NoteState, Error>(
                    NoteState {
                        affected_farms: farm_keys(marked@),
                        all_rewards: totals@,
                        added: farm_keys(added@),
                    },
                ),
            decreases items.len() - i,
        {
            proof {
                lemma_fold_sticky(init, items, note_step(), (i + 1) as nat, items.len());
            }
            note_one(&mut marked, &mut totals, &mut added, &new_rewards[i].0, new_rewards[i].1)?;
            i += 1;
        }
        self.affected_farms = marked;
        *all_rewards = totals;
        Ok(added)
    }
}

} // verus!

//! Accounts as they are shown to the outside: with the amounts that their
//! shares stand for, and the rates that they earn or pay.

use crate::account::{Account, AccountModel};
use crate::account_farm::{farm_keys, AccountFarmModel, AccountFarmReward, FarmId, FarmKey};
use crate::account_nft_asset::AccountNFTAsset;
use crate::asset_farm::{AssetFarm, AssetFarmModel, AssetFarmReward};
use crate::big_decimal::BigDecimal;
use crate::booster_staking::BoosterStaking;
use crate::contract::{Contract, ContractModel};
use crate::error::Error;
use crate::farm_claim::{payments_view, spec_farm_claim};
use crate::farm_settle::farm_index;
use crate::fold::{fold_results, lemma_fold_sticky};
use crate::pool::{Balance, Shares};
use crate::str_map::{lookup, Entries, StrMap};
use crate::utils::{AccountId, NFTContractId, NFTTokenId, Timestamp, TokenId};
use vstd::prelude::*;

verus! {

/// A position of an account in one asset.
#[derive(Debug)]
pub struct AssetView {
    pub token_id: TokenId,
    /// The amount that the shares stand for.
    pub balance: Balance,
    /// The shares that the account holds of the asset's pool.
    pub shares: Shares,
    /// The rate that the position earns or pays over a year.
    pub apr: BigDecimal,
}

/// A position as the contracts see it.
pub struct AssetViewModel {
    pub token_id: Seq<char>,
    pub balance: Balance,
    pub shares: Shares,
    pub apr: nat,
}

impl View for AssetView {
    type V = AssetViewModel;

    open spec fn view(&self) -> AssetViewModel {
        AssetViewModel {
            token_id: self.token_id@,
            balance: self.balance,
            shares: self.shares,
            apr: self.apr@,
        }
    }
}

/// A non-fungible token of an account.
#[derive(Debug)]
pub struct AssetNFTView {
    pub nft_contract_id: NFTContractId,
    pub nft_token_id: NFTTokenId,
    pub deposit_timestamp: Timestamp,
}

/// An account with its positions.
#[derive(Debug)]
pub struct AccountSimpleView {
    pub account_id: AccountId,
    /// What the account has supplied.
    pub collateral: Vec<AssetView>,
    /// The non-fungible tokens that the account has supplied.
    pub nft: Vec<AssetNFTView>,
    /// What the account has borrowed.
    pub borrowed: Vec<AssetView>,
}

/// What an account holds in one reward token of a farm, with what it can
/// claim.
#[derive(Debug)]
pub struct AccountFarmRewardView {
    pub reward_token_id: TokenId,
    pub asset_farm_reward: AssetFarmReward,
    pub boosted_shares: Balance,
    pub unclaimed_amount: Balance,
}

/// One farm of an account.
#[derive(Debug)]
pub struct AccountFarmView {
    pub farm_id: FarmId,
    pub rewards: Vec<AccountFarmRewardView>,
}

/// An account with its positions and its farms.
#[derive(Debug)]
pub struct AccountDetailedView {
    pub account_id: AccountId,
    /// What the account has supplied.
    pub supplied: Vec<AssetView>,
    /// The non-fungible tokens that the account has supplied.
    pub nft_supplied: Vec<AssetNFTView>,
    /// What the account has borrowed.
    pub borrowed: Vec<AssetView>,
    /// The farms that the account takes part in.
    pub farms: Vec<AccountFarmView>,
    /// Whether the account holds a position that a farm rewards and that
    /// takes no part in it yet.
    pub has_non_farmed_assets: bool,
    /// The account's stake of booster tokens.
    pub booster_staking: Option<BoosterStaking>,
}

/// The views of a list of positions.
pub open spec fn asset_views(views: Seq<AssetView>) -> Seq<AssetViewModel> {
    Seq::new(views.len(), |i: int| views[i]@)
}

/// The non-fungible tokens of an account as they are shown.
pub open spec fn nft_views(nfts: Seq<(Seq<char>, AccountNFTAsset)>) -> Seq<AssetNFTView> {
    Seq::new(
        nfts.len(),
        |i: int|
            AssetNFTView {
                nft_contract_id: nfts[i].1.nft_contract_id,
                nft_token_id: nfts[i].1.nft_token_id,
                deposit_timestamp: nfts[i].1.deposit_timestamp,
            },
    )
}

impl ContractModel {
    /// The position of `shares` in the asset of `token_id`, supplied or
    /// borrowed: the amount that the shares stand for, rounded against the
    /// account, and the asset's rate.
    pub open spec fn asset_view(self, token_id: Seq<char>, shares: Shares, is_borrowing: bool) -> Result<
        AssetViewModel,
        Error,
    > {
        match self.asset(token_id) {
            Err(e) => Err(e),
            Ok(asset) => match (if is_borrowing {
                asset.borrow_apr()
            } else {
                asset.supply_apr()
            }) {
                Err(e) => Err(e),
                Ok(apr) => match (if is_borrowing {
                    asset.borrowed.amount_for(shares, true)
                } else {
                    asset.supplied.amount_for(shares, false)
                }) {
                    Err(e) => Err(e),
                    Ok(balance) => Ok(AssetViewModel { token_id, balance, shares, apr }),
                },
            },
        }
    }

    /// The list of positions with one more.
    pub open spec fn view_added(
        self,
        is_borrowing: bool,
        views: Seq<AssetViewModel>,
        entry: (Seq<char>, Shares),
    ) -> Result<Seq<AssetViewModel>, Error> {
        match self.asset_view(entry.0, entry.1, is_borrowing) {
            Err(e) => Err(e),
            Ok(v) => Ok(views.push(v)),
        }
    }

    /// `view_added` as the step of a fold.
    pub open spec fn view_step(self, is_borrowing: bool) -> spec_fn(
        Seq<AssetViewModel>,
        (Seq<char>, Shares),
    ) -> Result<Seq<AssetViewModel>, Error> {
        |views: Seq<AssetViewModel>, entry: (Seq<char>, Shares)|
            self.view_added(is_borrowing, views, entry)
    }

    /// The positions of a map of shares, in the map's order.
    pub open spec fn position_views(self, entries: Seq<(Seq<char>, Shares)>, is_borrowing: bool) -> Result<
        Seq<AssetViewModel>,
        Error,
    > {
        fold_results(
            Seq::<AssetViewModel>::empty(),
            entries,
            self.view_step(is_borrowing),
            entries.len(),
        )
    }
}

impl Contract {
    /// The position of `shares` in the asset of `token_id`.
    pub fn get_asset_view(&self, token_id: TokenId, shares: Shares, is_borrowing: bool) -> (r:
        Result<AssetView, Error>)
        ensures
            match self@.asset_view(token_id@, shares, is_borrowing) {
                Ok(v) => r matches Ok(x) && x@ == v,
                Err(e) => r matches Err(e2) && e2 == e,
            },
    {
        let asset = self.internal_unwrap_asset(&token_id)?;
        let apr = if is_borrowing {
            asset.get_borrow_apr()?
        } else {
            asset.get_supply_apr()?
        };
        let balance = if is_borrowing {
            asset.borrowed.shares_to_amount(shares, true)?
        } else {
            asset.supplied.shares_to_amount(shares, false)?
        };
        Ok(AssetView { token_id, balance, shares, apr })
    }

    /// The positions of a map of shares, in the map's order.
    #[verifier::loop_isolation(false)]
    pub fn get_asset_views(&self, entries: &StrMap<Shares>, is_borrowing: bool) -> (r:
        Result<Vec<AssetView>, Error>)
        ensures
            match self@.position_views(entries@, is_borrowing) {
                Ok(v) => r matches Ok(x) && asset_views(x@) == v,
                Err(e) => r matches Err(e2) && e2 == e,
            },
    {
        let mut views: Vec<AssetView> = Vec::new();
        assert(asset_views(views@) =~= Seq::<AssetViewModel>::empty());
        let mut i: usize = 0;
        while i < entries.len()
            invariant
                i <= entries@.len(),
                fold_results(
                    Seq::<AssetViewModel>::empty(),
                    entries@,
                    self@.view_step(is_borrowing),
                    i as nat,
                ) == Ok::<Seq<AssetViewModel>, Error>(asset_views(views@)),
            decreases entries@.len() - i,
        {
            proof {
                lemma_fold_sticky(
                    Seq::<AssetViewModel>::empty(),
                    entries@,
                    self@.view_step(is_borrowing),
                    (i + 1) as nat,
                    entries@.len(),
                );
            }
            let view = self.get_asset_view(
                entries.key_at(i).clone(),
                *entries.value_at(i),
                is_borrowing,
            )?;
            let ghost before = views@;
            views.push(view);
            assert(asset_views(views@) =~= asset_views(before).push(view@));
            i += 1;
        }
        Ok(views)
    }

    /// The non-fungible tokens of an account as they are shown.
    pub fn get_nft_views(account: &Account) -> (r: Vec<AssetNFTView>)
        ensures
            r@ == nft_views(account@.nft_supplied),
    {
        let mut nfts: Vec<AssetNFTView> = Vec::new();
        let mut i: usize = 0;
        while i < account.nft_supplied.len()
            invariant
                i <= account@.nft_supplied.len(),
                nfts@.len() == i,
                forall|j: int| 0 <= j < i ==> nfts@[j] == nft_views(account@.nft_supplied)[j],
            decreases account@.nft_supplied.len() - i,
        {
            let held = account.nft_supplied.value_at(i);
            nfts.push(
                AssetNFTView {
                    nft_contract_id: held.nft_contract_id.clone(),
                    nft_token_id: held.nft_token_id.clone(),
                    deposit_timestamp: held.deposit_timestamp,
                },
            );
            i += 1;
        }
        assert(nfts@ =~= nft_views(account@.nft_supplied));
        nfts
    }

    /// The account with the amounts and the rates of its positions.
    pub fn account_into_simple_view(&self, account: Account) -> (r: Result<
        AccountSimpleView,
        Error,
    >)
        ensures
            match self@.position_views(account@.supplied, false) {
                Err(e) => r matches Err(e2) && e2 == e,
                Ok(collateral) => match self@.position_views(account@.borrowed, true) {
                    Err(e) => r matches Err(e2) && e2 == e,
                    Ok(borrowed) => r matches Ok(v) && v.account_id@ == account@.account_id
                        && asset_views(v.collateral@) == collateral && v.nft@ == nft_views(
                        account@.nft_supplied,
                    ) && asset_views(v.borrowed@) == borrowed,
                },
            },
    {
        let collateral = self.get_asset_views(&account.supplied, false)?;
        let nft = Self::get_nft_views(&account);
        let borrowed = self.get_asset_views(&account.borrowed, true)?;
        Ok(AccountSimpleView { account_id: account.account_id, collateral, nft, borrowed })
    }
}

/// A farm reward of an account as the contracts see it.
pub struct AccountFarmRewardViewModel {
    pub reward_token_id: Seq<char>,
    pub asset_farm_reward: AssetFarmReward,
    pub boosted_shares: Balance,
    pub unclaimed_amount: Balance,
}

impl View for AccountFarmRewardView {
    type V = AccountFarmRewardViewModel;

    open spec fn view(&self) -> AccountFarmRewardViewModel {
        AccountFarmRewardViewModel {
            reward_token_id: self.reward_token_id@,
            asset_farm_reward: self.asset_farm_reward,
            boosted_shares: self.boosted_shares,
            unclaimed_amount: self.unclaimed_amount,
        }
    }
}

impl View for AccountFarmView {
    type V = (FarmKey, Seq<AccountFarmRewardViewModel>);

    open spec fn view(&self) -> (FarmKey, Seq<AccountFarmRewardViewModel>) {
        (self.farm_id@, reward_views(self.rewards@))
    }
}

/// The farm rewards of a list as the contracts see them.
pub open spec fn reward_views(views: Seq<AccountFarmRewardView>) -> Seq<AccountFarmRewardViewModel> {
    Seq::new(views.len(), |i: int| views[i]@)
}

/// The farms of a list as the contracts see them.
pub open spec fn farm_views(views: Seq<AccountFarmView>) -> Seq<
    (FarmKey, Seq<AccountFarmRewardViewModel>),
> {
    Seq::new(views.len(), |i: int| views[i]@)
}

/// The farms on offer as the contracts see them.
pub open spec fn offered(farms: Seq<(FarmId, AssetFarm)>) -> Seq<(FarmKey, AssetFarmModel)> {
    Seq::new(farms.len(), |i: int| (farms[i].0@, farms[i].1@))
}

/// The first payment of `token_id` from the place `n` on, or nothing.
pub open spec fn payment_of(payments: Seq<(Seq<char>, Balance)>, token_id: Seq<char>, n: nat) -> Balance
    decreases payments.len() - n,
{
    if n >= payments.len() {
        0
    } else if payments[n as int].0 == token_id {
        payments[n as int].1
    } else {
        payment_of(payments, token_id, n + 1)
    }
}

/// The first farm from the place `n` on that is on offer as `farm`.
pub open spec fn farm_offered(farms: Seq<(FarmKey, AssetFarmModel)>, farm: FarmKey, n: nat) -> Option<
    int,
>
    decreases farms.len() - n,
{
    if n >= farms.len() {
        None
    } else if farms[n as int].0 == farm {
        Some(n as int)
    } else {
        farm_offered(farms, farm, n + 1)
    }
}

/// The shares that an account holds of each reward that a farm pays.
pub open spec fn held_shares(rewards: Entries<AccountFarmReward>) -> Seq<(Seq<char>, Balance)> {
    Seq::new(rewards.len(), |i: int| (rewards[i].0, rewards[i].1.boosted_shares))
}

/// The list of farm rewards with one more: the reward as the farm knows
/// it, paying or not, with the account's shares and what it can claim.
pub open spec fn reward_view_added(
    asset_farm: AssetFarmModel,
    new_rewards: Seq<(Seq<char>, Balance)>,
    views: Seq<AccountFarmRewardViewModel>,
    entry: (Seq<char>, Balance),
) -> Result<Seq<AccountFarmRewardViewModel>, Error> {
    match (match lookup(asset_farm.rewards, entry.0) {
        Some(r) => Some(r),
        None => lookup(asset_farm.inactive_rewards, entry.0),
    }) {
        None => Err(Error::FarmRewardNotFound),
        Some(asset_farm_reward) => Ok(
            views.push(
                AccountFarmRewardViewModel {
                    reward_token_id: entry.0,
                    asset_farm_reward,
                    boosted_shares: entry.1,
                    unclaimed_amount: payment_of(new_rewards, entry.0, 0),
                },
            ),
        ),
    }
}

/// `reward_view_added` as the step of a fold.
pub open spec fn reward_view_step(
    asset_farm: AssetFarmModel,
    new_rewards: Seq<(Seq<char>, Balance)>,
) -> spec_fn(Seq<AccountFarmRewardViewModel>, (Seq<char>, Balance)) -> Result<
    Seq<AccountFarmRewardViewModel>,
    Error,
> {
    |views: Seq<AccountFarmRewardViewModel>, entry: (Seq<char>, Balance)|
        reward_view_added(asset_farm, new_rewards, views, entry)
}

/// What an account holds in a farm, were it to claim now: first the rewards
/// that the farm pays, then those that it has stopped paying.
pub open spec fn spec_farm_view(
    account: AccountModel,
    farm: FarmKey,
    asset_farm: AssetFarmModel,
    now: Timestamp,
) -> Result<Seq<AccountFarmRewardViewModel>, Error> {
    match spec_farm_claim(account, farm, asset_farm, now) {
        Err(e) => Err(e),
        Ok((account_farm, new_rewards, inactive_rewards)) => {
            let held = held_shares(account_farm.rewards) + inactive_rewards;
            fold_results(
                Seq::<AccountFarmRewardViewModel>::empty(),
                held,
                reward_view_step(asset_farm, new_rewards),
                held.len(),
            )
        },
    }
}

/// The list of farms with one more of the account's.
pub open spec fn farm_view_added(
    account: AccountModel,
    farms: Seq<(FarmKey, AssetFarmModel)>,
    now: Timestamp,
    views: Seq<(FarmKey, Seq<AccountFarmRewardViewModel>)>,
    entry: (FarmKey, AccountFarmModel),
) -> Result<Seq<(FarmKey, Seq<AccountFarmRewardViewModel>)>, Error> {
    match farm_offered(farms, entry.0, 0) {
        None => Err(Error::FarmNotFound),
        Some(i) => match spec_farm_view(account, entry.0, farms[i].1, now) {
            Err(e) => Err(e),
            Ok(rewards) => Ok(views.push((entry.0, rewards))),
        },
    }
}

/// `farm_view_added` as the step of a fold.
pub open spec fn farm_view_step(
    account: AccountModel,
    farms: Seq<(FarmKey, AssetFarmModel)>,
    now: Timestamp,
) -> spec_fn(Seq<(FarmKey, Seq<AccountFarmRewardViewModel>)>, (FarmKey, AccountFarmModel)) -> Result<
    Seq<(FarmKey, Seq<AccountFarmRewardViewModel>)>,
    Error,
> {
    |views: Seq<(FarmKey, Seq<AccountFarmRewardViewModel>)>, entry: (FarmKey, AccountFarmModel)|
        farm_view_added(account, farms, now, views, entry)
}

/// Whether `farm` is on offer and the account takes no part in it.
pub open spec fn not_farmed(
    account: AccountModel,
    farms: Seq<(FarmKey, AssetFarmModel)>,
    farm: FarmKey,
) -> bool {
    farm_index(account.farms, farm, 0) >= account.farms.len() && farm_offered(farms, farm, 0) is Some
}

/// Whether the account holds a position that one of the farms on offer
/// rewards, and takes no part in that farm.
pub open spec fn has_non_farmed(account: AccountModel, farms: Seq<(FarmKey, AssetFarmModel)>) -> bool {
    exists|farm: FarmKey|
        #![trigger account.potential_farm(farm)]
        account.potential_farm(farm) && not_farmed(account, farms, farm)
}

/// The first payment of `token_id`, or nothing.
fn find_payment(payments: &Vec<(TokenId, Balance)>, token_id: &TokenId) -> (r: Balance)
    ensures
        r == payment_of(payments_view(payments@), token_id@, 0),
{
    let ghost items = payments_view(payments@);
    let mut i: usize = 0;
    while i < payments.len()
        invariant
            i <= items.len(),
            items == payments_view(payments@),
            payment_of(items, token_id@, 0) == payment_of(items, token_id@, i as nat),
        decreases items.len() - i,
    {
        if payments[i].0 == *token_id {
            return payments[i].1;
        }
        i += 1;
    }
    0
}

/// The place of the first farm on offer as `farm_id`.
fn find_offered(farms: &Vec<(FarmId, AssetFarm)>, farm_id: &FarmId) -> (r: Option<usize>)
    ensures
        match r {
            Some(k) => k < farms@.len() && farm_offered(offered(farms@), farm_id@, 0) == Some(
                k as int,
            ),
            None => farm_offered(offered(farms@), farm_id@, 0) is None,
        },
{
    let ghost items = offered(farms@);
    let mut i: usize = 0;
    while i < farms.len()
        invariant
            i <= items.len(),
            items == offered(farms@),
            farm_offered(items, farm_id@, 0) == farm_offered(items, farm_id@, i as nat),
        decreases items.len() - i,
    {
        if farms[i].0 == *farm_id {
            return Some(i);
        }
        i += 1;
    }
    None
}

impl Contract {
    /// Adds a reward to the list of what an account holds in a farm.
    fn push_reward_view(
        views: &mut Vec<AccountFarmRewardView>,
        asset_farm: &AssetFarm,
        new_rewards: &Vec<(TokenId, Balance)>,
        token_id: &TokenId,
        boosted_shares: Balance,
    ) -> (r: Result<(), Error>)
        ensures
            match reward_view_added(
                asset_farm@,
                payments_view(new_rewards@),
                reward_views(old(views)@),
                (token_id@, boosted_shares),
            ) {
                Ok(v) => r is Ok && reward_views(final(views)@) == v,
                Err(e) => r == Err::<(), Error>(e),
            },
    {
        let asset_farm_reward = match asset_farm.rewards.get(token_id) {
            Some(r) => *r,
            None => match asset_farm.internal_get_inactive_asset_farm_reward(token_id) {
                Some(r) => r,
                None => {
                    return Err(Error::FarmRewardNotFound);
                },
            },
        };
        let unclaimed_amount = find_payment(new_rewards, token_id);
        let ghost before = views@;
        let view = AccountFarmRewardView {
            reward_token_id: token_id.clone(),
            asset_farm_reward,
            boosted_shares,
            unclaimed_amount,
        };
        views.push(view);
        assert(reward_views(views@) =~= reward_views(before).push(view@));
        Ok(())
    }

    /// What the account holds in the farm `farm_id`, were it to claim now.
    #[verifier::loop_isolation(false)]
    pub fn account_farm_view(&self, account: &Account, farm_id: &FarmId, asset_farm: &AssetFarm) -> (r:
        Result<Vec<AccountFarmRewardView>, Error>)
        ensures
            match spec_farm_view(account@, farm_id@, asset_farm@, self.block_timestamp) {
                Ok(v) => r matches Ok(x) && reward_views(x@) == v,
                Err(e) => r matches Err(e2) && e2 == e,
            },
    {
        let (account_farm, new_rewards, inactive_rewards) = self.internal_account_farm_claim(
            account,
            farm_id,
            asset_farm,
        )?;
        let ghost items = held_shares(account_farm@.rewards) + payments_view(inactive_rewards@);
        let mut held: Vec<(TokenId, Balance)> = Vec::new();
        let mut i: usize = 0;
        while i < account_farm.rewards.len()
            invariant
                i <= account_farm@.rewards.len(),
                held@.len() == i,
                forall|j: int| 0 <= j < i ==> (#[trigger] held@[j]).0@ == items[j].0 && held@[j].1
                    == items[j].1,
            decreases account_farm@.rewards.len() - i,
        {
            held.push(
                (
                    account_farm.rewards.key_at(i).clone(),
                    account_farm.rewards.value_at(i).boosted_shares,
                ),
            );
            i += 1;
        }
        let first = i;
        let mut i: usize = 0;
        while i < inactive_rewards.len()
            invariant
                i <= inactive_rewards@.len(),
                first == account_farm@.rewards.len(),
                held@.len() == first + i,
                forall|j: int|
                    0 <= j < first + i ==> (#[trigger] held@[j]).0@ == items[j].0 && held@[j].1
                        == items[j].1,
            decreases inactive_rewards@.len() - i,
        {
            held.push((inactive_rewards[i].0.clone(), inactive_rewards[i].1));
            i += 1;
        }
        assert(payments_view(held@) =~= items);
        let ghost step = reward_view_step(asset_farm@, payments_view(new_rewards@));
        let ghost none = Seq::<AccountFarmRewardViewModel>::empty();
        let mut views: Vec<AccountFarmRewardView> = Vec::new();
        assert(reward_views(views@) =~= none);
        let mut i: usize = 0;
        while i < held.len()
            invariant
                i <= items.len(),
                fold_results(none, items, step, i as nat) == Ok::<
                    Seq<AccountFarmRewardViewModel>,
                    Error,
                >(reward_views(views@)),
            decreases items.len() - i,
        {
            proof {
                lemma_fold_sticky(none, items, step, (i + 1) as nat, items.len());
            }
            Self::push_reward_view(&mut views, asset_farm, &new_rewards, &held[i].0, held[i].1)?;
            i += 1;
        }
        Ok(views)
    }

    /// Whether the account holds a position that one of the farms on offer
    /// rewards, and takes no part in that farm.
    #[verifier::loop_isolation(false)]
    pub fn has_non_farmed_assets(account: &Account, asset_farms: &Vec<(FarmId, AssetFarm)>) -> (r:
        bool)
        ensures
            r == has_non_farmed(account@, offered(asset_farms@)),
    {
        let potential = account.get_all_potential_farms();
        let ghost keys = farm_keys(potential@);
        let ghost farms = offered(asset_farms@);
        let mut i: usize = 0;
        while i < potential.len()
            invariant
                i <= keys.len(),
                keys == farm_keys(potential@),
                farms == offered(asset_farms@),
                forall|j: int| 0 <= j < i ==> !not_farmed(account@, farms, #[trigger] keys[j]),
            decreases keys.len() - i,
        {
            let place = account.farm_place(&potential[i]);
            if place >= account.farms.len() && find_offered(asset_farms, &potential[i]).is_some() {
                proof {
                    assert(keys.contains(keys[i as int]));
                    assert(account@.potential_farm(keys[i as int]));
                }
                return true;
            }
            i += 1;
        }
        proof {
            if has_non_farmed(account@, farms) {
                let farm = choose|farm: FarmKey|
                    #![trigger account@.potential_farm(farm)]
                    account@.potential_farm(farm) && not_farmed(account@, farms, farm);
                assert(keys.contains(farm));
                let j = choose|j: int| 0 <= j < keys.len() && keys[j] == farm;
                assert(!not_farmed(account@, farms, keys[j]));
            }
        }
        false
    }

    /// The account with the amounts and the rates of its positions, and
    /// with what it holds in each of its farms.  `asset_farms` holds the
    /// farms on offer: those that the account takes part in, and those of
    /// the positions that it holds.
    #[verifier::loop_isolation(false)]
    pub fn account_into_detailed_view(
        &self,
        account: Account,
        asset_farms: &Vec<(FarmId, AssetFarm)>,
    ) -> (r: Result<AccountDetailedView, Error>)
        ensures
            match fold_results(
                Seq::<(FarmKey, Seq<AccountFarmRewardViewModel>)>::empty(),
                account@.farms,
                farm_view_step(account@, offered(asset_farms@), self.block_timestamp),
                account@.farms.len(),
            ) {
                Err(e) => r matches Err(e2) && e2 == e,
                Ok(farms) => match self@.position_views(account@.supplied, false) {
                    Err(e) => r matches Err(e2) && e2 == e,
                    Ok(supplied) => match self@.position_views(account@.borrowed, true) {
                        Err(e) => r matches Err(e2) && e2 == e,
                        Ok(borrowed) => r matches Ok(v) && v.account_id@ == account@.account_id
                            && asset_views(v.supplied@) == supplied && v.nft_supplied@
                            == nft_views(account@.nft_supplied) && asset_views(v.borrowed@)
                            == borrowed && farm_views(v.farms@) == farms
                            && v.has_non_farmed_assets == has_non_farmed(
                            account@,
                            offered(asset_farms@),
                        ) && v.booster_staking == account@.booster_staking,
                    },
                },
            },
    {
        let ghost none = Seq::<(FarmKey, Seq<AccountFarmRewardViewModel>)>::empty();
        let ghost step = farm_view_step(account@, offered(asset_farms@), self.block_timestamp);
        let mut farms: Vec<AccountFarmView> = Vec::new();
        assert(farm_views(farms@) =~= none);
        let mut i: usize = 0;
        while i < account.farms.len()
            invariant
                i <= account@.farms.len(),
                fold_results(none, account@.farms, step, i as nat) == Ok::<
                    Seq<(FarmKey, Seq<AccountFarmRewardViewModel>)>,
                    Error,
                >(farm_views(farms@)),
            decreases account@.farms.len() - i,
        {
            proof {
                lemma_fold_sticky(none, account@.farms, step, (i + 1) as nat, account@.farms.len());
            }
            let farm_id = account.farms[i].farm_id.clone();
            assert(account@.farms[i as int] == (farm_id@, account.farms@[i as int].farm@));
            let rewards = match find_offered(asset_farms, &farm_id) {
                None => {
                    return Err(Error::FarmNotFound);
                },
                Some(k) => {
                    assert(offered(asset_farms@)[k as int].1 == asset_farms@[k as int].1@);
                    self.account_farm_view(&account, &farm_id, &asset_farms[k].1)?
                },
            };
            let ghost before = farms@;
            let view = AccountFarmView { farm_id, rewards };
            farms.push(view);
            assert(farm_views(farms@) =~= farm_views(before).push(view@));
            i += 1;
        }
        let has_non_farmed_assets = Self::has_non_farmed_assets(&account, asset_farms);
        let booster_staking = account.booster_staking;
        let simple = self.account_into_simple_view(account)?;
        Ok(
            AccountDetailedView {
                account_id: simple.account_id,
                supplied: simple.collateral,
                nft_supplied: simple.nft,
                borrowed: simple.borrowed,
                farms,
                has_non_farmed_assets,
                booster_staking,
            },
        )
    }
}

} // verus!

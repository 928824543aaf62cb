//! An account: what it has supplied and borrowed, its non-fungible
//! collateral, and the farms that its positions touch.

use crate::account_asset::AccountAsset;
use crate::account_farm::{
    distinct_farms, farm_keys, farms_view, AccountFarmEntry, AccountFarmModel, FarmId, FarmKey,
};
use crate::account_nft_asset::AccountNFTAsset;
use crate::booster_staking::BoosterStaking;
use crate::error::Error;
use crate::pool::Shares;
use crate::str_map::{
    distinct_keys, has_key, lemma_other_keys, lemma_upsert_distinct, lemma_without_distinct,
    lookup, position, upsert, without, Entries, StrMap,
};
use crate::utils::{AccountId, NFTContractTokenId, Timestamp, TokenId};
use vstd::prelude::*;

verus! {

/// One account of the ledger.
pub struct Account {
    /// The account's name.
    pub account_id: AccountId,
    /// The shares held of each asset's supplied pool.  They are collateral.
    pub supplied: StrMap<Shares>,
    /// The shares owed to each asset's borrowed pool.
    pub borrowed: StrMap<Shares>,
    /// The non-fungible tokens supplied as collateral, by contract and token.
    pub nft_supplied: StrMap<AccountNFTAsset>,
    /// The account's state in each farm that it takes part in.
    pub farms: Vec<AccountFarmEntry>,
    /// The farms whose weights changed during the present call.
    pub affected_farms: Vec<FarmId>,
    /// The account's stake of booster tokens.
    pub booster_staking: Option<BoosterStaking>,
}

/// An account as the contracts see it.
pub struct AccountModel {
    pub account_id: Seq<char>,
    pub supplied: Entries<Shares>,
    pub borrowed: Entries<Shares>,
    pub nft_supplied: Entries<AccountNFTAsset>,
    pub farms: Seq<(FarmKey, AccountFarmModel)>,
    pub affected_farms: Seq<FarmKey>,
    pub booster_staking: Option<BoosterStaking>,
}

impl View for Account {
    type V = AccountModel;

    open spec fn view(&self) -> AccountModel {
        AccountModel {
            account_id: self.account_id@,
            supplied: self.supplied@,
            borrowed: self.borrowed@,
            nft_supplied: self.nft_supplied@,
            farms: farms_view(self.farms@),
            affected_farms: farm_keys(self.affected_farms@),
            booster_staking: self.booster_staking,
        }
    }
}

/// The farms after `farm` was marked: at the end, unless it was there.
pub open spec fn with_farm(farms: Seq<FarmKey>, farm: FarmKey) -> Seq<FarmKey> {
    if farms.contains(farm) {
        farms
    } else {
        farms.push(farm)
    }
}

/// A farm is among the marked ones after a marking exactly if it was there
/// before or is the one marked.
pub proof fn lemma_with_farm(farms: Seq<FarmKey>, farm: FarmKey, other: FarmKey)
    ensures
        with_farm(farms, farm).contains(other) <==> farms.contains(other) || farm == other,
        distinct_farms(farms) ==> distinct_farms(with_farm(farms, farm)),
{
    let after = with_farm(farms, farm);
    if !farms.contains(farm) {
        assert(after[farms.len() as int] == farm);
        if farms.contains(other) {
            let i = choose|i: int| 0 <= i < farms.len() && farms[i] == other;
            assert(after[i] == other);
        }
        if after.contains(other) {
            let i = choose|i: int| 0 <= i < after.len() && after[i] == other;
            if i < farms.len() {
                assert(farms[i] == other);
            }
        }
        if distinct_farms(farms) {
            assert forall|i: int, j: int| 0 <= i < j < after.len() implies after[i] != after[j] by {
                if j == farms.len() {
                    assert(farms[i] != farm);
                }
            }
        }
    }
}

impl AccountModel {
    /// No token is held with zero shares.
    pub open spec fn no_empty_positions(self) -> bool {
        &&& forall|i: int| 0 <= i < self.supplied.len() ==> (#[trigger] self.supplied[i]).1.0 > 0
        &&& forall|i: int| 0 <= i < self.borrowed.len() ==> (#[trigger] self.borrowed[i]).1.0 > 0
    }

    /// The supplied position in `token_id`, if any.
    pub open spec fn asset(self, token_id: Seq<char>) -> Option<AccountAsset> {
        match lookup(self.supplied, token_id) {
            Some(shares) => Some(AccountAsset { shares }),
            None => None,
        }
    }

    /// The supplied position in `token_id`; its absence is an error.
    pub open spec fn asset_or_error(self, token_id: Seq<char>) -> Result<AccountAsset, Error> {
        match lookup(self.supplied, token_id) {
            Some(shares) => Ok(AccountAsset { shares }),
            None => Err(Error::SuppliedNotFound),
        }
    }

    /// The supplied position in `token_id`, empty if there is none.
    pub open spec fn asset_or_default(self, token_id: Seq<char>) -> AccountAsset {
        match lookup(self.supplied, token_id) {
            Some(shares) => AccountAsset { shares },
            None => AccountAsset { shares: Shares(0) },
        }
    }

    /// The shares owed in `token_id`; their absence is an error.
    pub open spec fn borrowed_or_error(self, token_id: Seq<char>) -> Result<Shares, Error> {
        match lookup(self.borrowed, token_id) {
            Some(shares) => Ok(shares),
            None => Err(Error::BorrowedNotFound),
        }
    }

    /// The account with its supplied position in `token_id` set: an empty
    /// position leaves no entry.
    pub open spec fn with_asset(self, token_id: Seq<char>, asset: AccountAsset) -> AccountModel {
        AccountModel {
            supplied: if asset.shares.0 == 0 {
                without(self.supplied, token_id)
            } else {
                upsert(self.supplied, token_id, asset.shares)
            },
            ..self
        }
    }

    /// The account after it borrowed `shares` more of `token_id`.
    pub open spec fn borrowed_more(self, token_id: Seq<char>, shares: Shares) -> Result<
        AccountModel,
        Error,
    > {
        let held = match lookup(self.borrowed, token_id) {
            Some(s) => s.0,
            None => 0,
        };
        if held + shares.0 > u128::MAX {
            Err(Error::Overflow)
        } else {
            Ok(
                AccountModel {
                    borrowed: upsert(self.borrowed, token_id, Shares((held + shares.0) as u128)),
                    ..self
                },
            )
        }
    }

    /// The account after it repaid `shares` of `token_id`: a debt paid in
    /// full leaves no entry.
    pub open spec fn borrowed_less(self, token_id: Seq<char>, shares: Shares) -> Result<
        AccountModel,
        Error,
    > {
        match lookup(self.borrowed, token_id) {
            None => Err(Error::BorrowedNotFound),
            Some(held) => if held.0 < shares.0 {
                Err(Error::NotEnoughBorrowed)
            } else if held.0 == shares.0 {
                Ok(AccountModel { borrowed: without(self.borrowed, token_id), ..self })
            } else {
                Ok(
                    AccountModel {
                        borrowed: upsert(
                            self.borrowed,
                            token_id,
                            Shares((held.0 - shares.0) as u128),
                        ),
                        ..self
                    },
                )
            },
        }
    }

    /// The account with `farm` marked as affected.
    pub open spec fn with_affected_farm(self, farm: FarmKey) -> AccountModel {
        AccountModel { affected_farms: with_farm(self.affected_farms, farm), ..self }
    }

    /// The account with the non-fungible token under `key` set: an entry
    /// that stands for no token leaves none.
    pub open spec fn with_nft_asset(self, key: Seq<char>, asset: AccountNFTAsset) -> AccountModel {
        AccountModel {
            nft_supplied: if asset.spec_is_empty() {
                without(self.nft_supplied, key)
            } else {
                upsert(self.nft_supplied, key, asset)
            },
            ..self
        }
    }

    /// The account without the non-fungible token under `key`.
    pub open spec fn without_nft_asset(self, key: Seq<char>) -> AccountModel {
        AccountModel { nft_supplied: without(self.nft_supplied, key), ..self }
    }

    /// Whether the account holds a position that `farm` rewards.
    pub open spec fn potential_farm(self, farm: FarmKey) -> bool {
        match farm {
            FarmKey::Supplied(t) => has_key(self.supplied, t),
            FarmKey::Borrowed(t) => has_key(self.borrowed, t),
            FarmKey::SuppliedNFT(t) => holds_contract(self.nft_supplied, t, self.nft_supplied.len()),
        }
    }
}

/// Whether one of the first `n` tokens belongs to the contract.
pub open spec fn holds_contract(nfts: Entries<AccountNFTAsset>, contract: Seq<char>, n: nat) -> bool {
    exists|i: int| 0 <= i < n && i < nfts.len() && (#[trigger] nfts[i]).1.nft_contract_id@ == contract
}

impl Clone for Account {
    fn clone(&self) -> (r: Self)
        ensures
            r@ == self@,
    {
        let supplied = self.supplied.clone();
        let borrowed = self.borrowed.clone();
        let nft_supplied = self.nft_supplied.clone();
        let affected_farms = self.affected_farms.clone();
        let mut farms: Vec<AccountFarmEntry> = Vec::new();
        let mut i: usize = 0;
        while i < self.farms.len()
            invariant
                i <= self.farms.len(),
                farms@.len() == i,
                forall|j: int|
                    0 <= j < i ==> (#[trigger] farms@[j]).farm_id == self.farms@[j].farm_id
                        && farms@[j].farm@ == self.farms@[j].farm@,
            decreases self.farms.len() - i,
        {
            farms.push(self.farms[i].clone());
            i += 1;
        }
        proof {
            assert(supplied@ =~= self.supplied@);
            assert(borrowed@ =~= self.borrowed@);
            assert(nft_supplied@ =~= self.nft_supplied@);
            assert(farm_keys(affected_farms@) =~= farm_keys(self.affected_farms@));
            assert(farms_view(farms@) =~= farms_view(self.farms@));
        }
        Account {
            account_id: self.account_id.clone(),
            supplied,
            borrowed,
            nft_supplied,
            farms,
            affected_farms,
            booster_staking: self.booster_staking,
        }
    }
}

/// Marks `farm_id` among `farms`, unless it is there.  Says whether it was
/// added.
pub fn insert_farm(farms: &mut Vec<FarmId>, farm_id: FarmId) -> (r: bool)
    ensures
        r == !farm_keys(old(farms)@).contains(farm_id@),
        farm_keys(final(farms)@) == with_farm(farm_keys(old(farms)@), farm_id@),
{
    let mut i: usize = 0;
    while i < farms.len()
        invariant
            i <= farms.len(),
            farms@ == old(farms)@,
            forall|j: int| 0 <= j < i ==> farm_keys(farms@)[j] != farm_id@,
        decreases farms.len() - i,
    {
        if farms[i] == farm_id {
            assert(farm_keys(farms@)[i as int] == farm_id@);
            return false;
        }
        i += 1;
    }
    let ghost before = farms@;
    farms.push(farm_id);
    assert(farm_keys(farms@) =~= farm_keys(before).push(farm_id@));
    true
}

impl Account {
    /// An account without positions.
    pub fn new(account_id: &AccountId) -> (r: Account)
        ensures
            r@ == (AccountModel {
                account_id: account_id@,
                supplied: Seq::<(Seq<char>, Shares)>::empty(),
                borrowed: Seq::<(Seq<char>, Shares)>::empty(),
                nft_supplied: Seq::<(Seq<char>, AccountNFTAsset)>::empty(),
                farms: Seq::<(FarmKey, AccountFarmModel)>::empty(),
                affected_farms: Seq::<FarmKey>::empty(),
                booster_staking: None,
            }),
    {
        let r = Account {
            account_id: account_id.clone(),
            supplied: StrMap::new(),
            borrowed: StrMap::new(),
            nft_supplied: StrMap::new(),
            farms: Vec::new(),
            affected_farms: Vec::new(),
            booster_staking: None,
        };
        assert(farms_view(r.farms@) =~= Seq::<(FarmKey, AccountFarmModel)>::empty());
        assert(farm_keys(r.affected_farms@) =~= Seq::<FarmKey>::empty());
        r
    }

    /// The supplied position in `token_id`, if any.
    pub fn internal_get_asset(&self, token_id: &TokenId) -> (r: Option<AccountAsset>)
        ensures
            r == self@.asset(token_id@),
    {
        match self.supplied.get(token_id) {
            Some(shares) => Some(AccountAsset { shares: *shares }),
            None => None,
        }
    }

    /// The supplied position in `token_id`; its absence is an error.
    pub fn internal_unwrap_asset(&self, token_id: &TokenId) -> (r: Result<AccountAsset, Error>)
        ensures
            r == self@.asset_or_error(token_id@),
    {
        match self.supplied.get(token_id) {
            Some(shares) => Ok(AccountAsset { shares: *shares }),
            None => Err(Error::SuppliedNotFound),
        }
    }

    /// The supplied position in `token_id`, empty if there is none.
    pub fn internal_get_asset_or_default(&self, token_id: &TokenId) -> (r: AccountAsset)
        ensures
            r == self@.asset_or_default(token_id@),
    {
        match self.supplied.get(token_id) {
            Some(shares) => AccountAsset { shares: *shares },
            None => AccountAsset::new(),
        }
    }

    /// Sets the supplied position in `token_id`: an empty position leaves
    /// no entry.
    pub fn internal_set_asset(&mut self, token_id: &TokenId, account_asset: AccountAsset)
        ensures
            final(self)@ == old(self)@.with_asset(token_id@, account_asset),
    {
        if account_asset.is_empty() {
            self.supplied.remove(token_id);
        } else {
            self.supplied.insert(token_id.clone(), account_asset.shares);
        }
    }

    /// Adds `shares` to the debt in `token_id`.  A refused call leaves the
    /// account as it was.
    pub fn increase_borrowed(&mut self, token_id: &TokenId, shares: Shares) -> (r: Result<
        (),
        Error,
    >)
        ensures
            match old(self)@.borrowed_more(token_id@, shares) {
                Ok(v) => r is Ok && final(self)@ == v,
                Err(e) => r == Err::<(), Error>(e) && final(self)@ == old(self)@,
            },
    {
        let held = match self.borrowed.get(token_id) {
            Some(s) => s.0,
            None => 0,
        };
        match held.checked_add(shares.0) {
            Some(total) => {
                self.borrowed.insert(token_id.clone(), Shares(total));
                Ok(())
            },
            None => Err(Error::Overflow),
        }
    }

    /// Takes `shares` off the debt in `token_id`: a debt paid in full
    /// leaves no entry.  A refused call leaves the account as it was.
    pub fn decrease_borrowed(&mut self, token_id: &TokenId, shares: Shares) -> (r: Result<
        (),
        Error,
    >)
        ensures
            match old(self)@.borrowed_less(token_id@, shares) {
                Ok(v) => r is Ok && final(self)@ == v,
                Err(e) => r == Err::<(), Error>(e) && final(self)@ == old(self)@,
            },
    {
        let current_borrowed = self.internal_unwrap_borrowed(token_id)?;
        if current_borrowed.0 < shares.0 {
            return Err(Error::NotEnoughBorrowed);
        }
        let new_balance = current_borrowed.0 - shares.0;
        if new_balance > 0 {
            self.borrowed.insert(token_id.clone(), Shares(new_balance));
        } else {
            self.borrowed.remove(token_id);
        }
        Ok(())
    }

    /// The shares owed in `token_id`; their absence is an error.
    pub fn internal_unwrap_borrowed(&self, token_id: &TokenId) -> (r: Result<Shares, Error>)
        ensures
            r == self@.borrowed_or_error(token_id@),
    {
        match self.borrowed.get(token_id) {
            Some(s) => Ok(*s),
            None => Err(Error::BorrowedNotFound),
        }
    }

    /// Marks a farm as affected by the present call.  Says whether it was
    /// not yet marked.
    pub fn add_affected_farm(&mut self, farm_id: FarmId) -> (r: bool)
        ensures
            r == !old(self)@.affected_farms.contains(farm_id@),
            final(self)@ == old(self)@.with_affected_farm(farm_id@),
    {
        insert_farm(&mut self.affected_farms, farm_id)
    }

    /// The farms of every position that the account holds: of each token
    /// supplied, of each token borrowed, and of each contract of which it
    /// has supplied a non-fungible token.
    pub fn get_all_potential_farms(&self) -> (r: Vec<FarmId>)
        ensures
            distinct_farms(farm_keys(r@)),
            forall|f: FarmKey| #[trigger] farm_keys(r@).contains(f) <==> self@.potential_farm(f),
    {
        let mut farms: Vec<FarmId> = Vec::new();
        let mut i: usize = 0;
        while i < self.supplied.len()
            invariant
                i <= self.supplied@.len(),
                distinct_farms(farm_keys(farms@)),
                forall|f: FarmKey| #[trigger]
                    farm_keys(farms@).contains(f) <==> (f matches FarmKey::Supplied(t)
                        && exists|j: int| 0 <= j < i && (#[trigger] self.supplied@[j]).0 == t),
            decreases self.supplied@.len() - i,
        {
            let farm = FarmId::Supplied(self.supplied.key_at(i).clone());
            let ghost before = farm_keys(farms@);
            proof {
                assert forall|f: FarmKey| #[trigger]
                    with_farm(before, farm@).contains(f) <==> (f matches FarmKey::Supplied(t)
                        && exists|j: int| 0 <= j < i + 1 && (#[trigger] self.supplied@[j]).0 == t) by {
                    lemma_with_farm(before, farm@, f);
                    if farm@ == f {
                        assert(self.supplied@[i as int].0 == f->Supplied_0);
                    }
                }
                lemma_with_farm(before, farm@, farm@);
            }
            insert_farm(&mut farms, farm);
            i += 1;
        }
        let mut i: usize = 0;
        while i < self.borrowed.len()
            invariant
                i <= self.borrowed@.len(),
                distinct_farms(farm_keys(farms@)),
                forall|f: FarmKey| #[trigger]
                    farm_keys(farms@).contains(f) <==> (f matches FarmKey::Supplied(t) && has_key(
                        self.supplied@,
                        t,
                    )) || (f matches FarmKey::Borrowed(t) && exists|j: int|
                        0 <= j < i && (#[trigger] self.borrowed@[j]).0 == t),
            decreases self.borrowed@.len() - i,
        {
            let farm = FarmId::Borrowed(self.borrowed.key_at(i).clone());
            let ghost before = farm_keys(farms@);
            proof {
                assert forall|f: FarmKey| #[trigger]
                    with_farm(before, farm@).contains(f) <==> (f matches FarmKey::Supplied(t)
                        && has_key(self.supplied@, t)) || (f matches FarmKey::Borrowed(t)
                        && exists|j: int| 0 <= j < i + 1 && (#[trigger] self.borrowed@[j]).0 == t) by {
                    lemma_with_farm(before, farm@, f);
                    if farm@ == f {
                        assert(self.borrowed@[i as int].0 == f->Borrowed_0);
                    }
                }
                lemma_with_farm(before, farm@, farm@);
            }
            insert_farm(&mut farms, farm);
            i += 1;
        }
        let mut i: usize = 0;
        while i < self.nft_supplied.len()
            invariant
                i <= self.nft_supplied@.len(),
                distinct_farms(farm_keys(farms@)),
                forall|f: FarmKey| #[trigger]
                    farm_keys(farms@).contains(f) <==> (f matches FarmKey::Supplied(t) && has_key(
                        self.supplied@,
                        t,
                    )) || (f matches FarmKey::Borrowed(t) && has_key(self.borrowed@, t)) || (
                    f matches FarmKey::SuppliedNFT(t) && holds_contract(
                        self.nft_supplied@,
                        t,
                        i as nat,
                    )),
            decreases self.nft_supplied@.len() - i,
        {
            let farm = FarmId::SuppliedNFT(self.nft_supplied.value_at(i).nft_contract_id.clone());
            let ghost before = farm_keys(farms@);
            proof {
                assert forall|f: FarmKey| #[trigger]
                    with_farm(before, farm@).contains(f) <==> (f matches FarmKey::Supplied(t)
                        && has_key(self.supplied@, t)) || (f matches FarmKey::Borrowed(t)
                        && has_key(self.borrowed@, t)) || (f matches FarmKey::SuppliedNFT(t)
                        && holds_contract(self.nft_supplied@, t, (i + 1) as nat)) by {
                    lemma_with_farm(before, farm@, f);
                    if farm@ == f {
                        assert(self.nft_supplied@[i as int].1.nft_contract_id@
                            == f->SuppliedNFT_0);
                    }
                    if f is SuppliedNFT {
                        let t = f->SuppliedNFT_0;
                        if holds_contract(self.nft_supplied@, t, (i + 1) as nat) {
                            let j = choose|j: int|
                                0 <= j < i + 1 && j < self.nft_supplied@.len() && (
                                #[trigger] self.nft_supplied@[j]).1.nft_contract_id@ == t;
                            if j < i {
                                assert(holds_contract(self.nft_supplied@, t, i as nat));
                            }
                        }
                        if holds_contract(self.nft_supplied@, t, i as nat) {
                            let j = choose|j: int|
                                0 <= j < i && j < self.nft_supplied@.len() && (
                                #[trigger] self.nft_supplied@[j]).1.nft_contract_id@ == t;
                            assert(self.nft_supplied@[j].1.nft_contract_id@ == t);
                        }
                    }
                }
                lemma_with_farm(before, farm@, farm@);
            }
            insert_farm(&mut farms, farm);
            i += 1;
        }
        farms
    }

    /// The shares held of the supplied pool of `token_id`: none where the
    /// account has no position.
    pub fn get_supplied_shares(&self, token_id: &TokenId) -> (r: Shares)
        ensures
            r == self@.asset_or_default(token_id@).shares,
    {
        let supplied_shares = match self.internal_get_asset(token_id) {
            Some(asset) => asset.shares.0,
            None => 0,
        };
        Shares(supplied_shares)
    }

    /// The shares owed to the borrowed pool of `token_id`: none where the
    /// account has no debt.
    pub fn get_borrowed_shares(&self, token_id: &TokenId) -> (r: Shares)
        ensures
            r == (match lookup(self@.borrowed, token_id@) {
                Some(s) => s,
                None => Shares(0),
            }),
    {
        match self.borrowed.get(token_id) {
            Some(s) => *s,
            None => Shares(0),
        }
    }

    /// The non-fungible token under `nft_contract_token_id`; its absence is
    /// an error.
    pub fn internal_unwrap_nft_asset(&self, nft_contract_token_id: &NFTContractTokenId) -> (r:
        Result<AccountNFTAsset, Error>)
        ensures
            r == (match lookup(self@.nft_supplied, nft_contract_token_id@) {
                Some(a) => Ok::<AccountNFTAsset, Error>(a),
                None => Err(Error::NftNotFound),
            }),
    {
        match self.internal_get_nft_asset(nft_contract_token_id) {
            Some(a) => Ok(a),
            None => Err(Error::NftNotFound),
        }
    }

    /// The non-fungible token under `nft_contract_token_id`, if any.
    pub fn internal_get_nft_asset(&self, nft_contract_token_id: &NFTContractTokenId) -> (r:
        Option<AccountNFTAsset>)
        ensures
            r == lookup(self@.nft_supplied, nft_contract_token_id@),
    {
        match self.nft_supplied.get(nft_contract_token_id) {
            Some(x) => Some(x.clone()),
            None => None,
        }
    }

    /// The non-fungible token under `nft_contract_token_id`, or the entry
    /// that stands for none, made for the ledger's own account and the
    /// present time.
    pub fn internal_get_nft_asset_or_default(
        &self,
        nft_contract_token_id: &NFTContractTokenId,
        current_account_id: AccountId,
        timestamp: Timestamp,
    ) -> (r: AccountNFTAsset)
        ensures
            match lookup(self@.nft_supplied, nft_contract_token_id@) {
                Some(a) => r == a,
                None => r.nft_contract_id == current_account_id && r.deposit_timestamp
                    == timestamp && r.spec_is_empty(),
            },
    {
        match self.internal_get_nft_asset(nft_contract_token_id) {
            Some(a) => a,
            None => AccountNFTAsset::new(current_account_id, timestamp),
        }
    }

    /// Sets the non-fungible token under `nft_contract_token_id`: an entry
    /// that stands for no token leaves none.
    pub fn internal_set_nft_asset(
        &mut self,
        nft_contract_token_id: &NFTContractTokenId,
        account_nft_asset: AccountNFTAsset,
    )
        ensures
            final(self)@ == old(self)@.with_nft_asset(nft_contract_token_id@, account_nft_asset),
    {
        if account_nft_asset.is_empty() {
            self.nft_supplied.remove(nft_contract_token_id);
        } else {
            self.nft_supplied.insert(nft_contract_token_id.clone(), account_nft_asset);
        }
    }
}

/// An account never holds a token with zero shares: setting a supplied
/// position, repaying, and borrowing a positive number of shares keep it
/// so.
pub proof fn lemma_positions_stay_positive(
    account: AccountModel,
    token_id: Seq<char>,
    position: AccountAsset,
    shares: Shares,
)
    requires
        account.no_empty_positions(),
        distinct_keys(account.supplied),
        distinct_keys(account.borrowed),
    ensures
        account.with_asset(token_id, position).no_empty_positions(),
        account.borrowed_less(token_id, shares) matches Ok(a) ==> a.no_empty_positions(),
        shares.0 > 0 ==> (account.borrowed_more(token_id, shares) matches Ok(a)
            ==> a.no_empty_positions()),
{
    lemma_entries_stay_positive(account.supplied, token_id, position.shares);
    if lookup(account.borrowed, token_id) is Some {
        let held = lookup(account.borrowed, token_id)->Some_0;
        if held.0 >= shares.0 {
            lemma_entries_stay_positive(
                account.borrowed,
                token_id,
                Shares((held.0 - shares.0) as u128),
            );
        }
        if held.0 + shares.0 <= u128::MAX {
            lemma_entries_stay_positive(
                account.borrowed,
                token_id,
                Shares((held.0 + shares.0) as u128),
            );
        }
    } else {
        lemma_entries_stay_positive(account.borrowed, token_id, shares);
    }
}

/// Entries with positive shares stay so when one is taken out, or when
/// one with positive shares is put in.
proof fn lemma_entries_stay_positive(entries: Entries<Shares>, token_id: Seq<char>, shares: Shares)
    requires
        forall|i: int| 0 <= i < entries.len() ==> (#[trigger] entries[i]).1.0 > 0,
    ensures
        forall|i: int|
            0 <= i < without(entries, token_id).len() ==> (#[trigger] without(
                entries,
                token_id,
            )[i]).1.0 > 0,
        shares.0 > 0 ==> forall|i: int|
            0 <= i < upsert(entries, token_id, shares).len() ==> (#[trigger] upsert(
                entries,
                token_id,
                shares,
            )[i]).1.0 > 0,
{
    let fewer = without(entries, token_id);
    assert forall|i: int| 0 <= i < fewer.len() implies (#[trigger] fewer[i]).1.0 > 0 by {
        if has_key(entries, token_id) {
            let p = position(entries, token_id);
            if i < p {
                assert(fewer[i] == entries[i]);
            } else {
                assert(fewer[i] == entries[i + 1]);
            }
        }
    }
    if shares.0 > 0 {
        let more = upsert(entries, token_id, shares);
        assert forall|i: int| 0 <= i < more.len() implies (#[trigger] more[i]).1.0 > 0 by {
            if has_key(entries, token_id) {
                if i != position(entries, token_id) {
                    assert(more[i] == entries[i]);
                }
            } else if i < entries.len() {
                assert(more[i] == entries[i]);
            }
        }
    }
}

/// Whether the marks of `after` cover what changed since `before`: every
/// token whose supplied or borrowed shares differ has its farm marked, and
/// no mark was dropped.
pub open spec fn marks_cover(before: AccountModel, after: AccountModel) -> bool {
    &&& forall|t: Seq<char>| #[trigger]
        lookup(after.supplied, t) != lookup(before.supplied, t)
            ==> after.affected_farms.contains(FarmKey::Supplied(t))
    &&& forall|t: Seq<char>| #[trigger]
        lookup(after.borrowed, t) != lookup(before.borrowed, t)
            ==> after.affected_farms.contains(FarmKey::Borrowed(t))
    &&& forall|f: FarmKey| #[trigger]
        before.affected_farms.contains(f) ==> after.affected_farms.contains(f)
    &&& distinct_keys(after.supplied)
    &&& distinct_keys(after.borrowed)
}

/// Marks that cover one change and then another cover both.
pub proof fn lemma_marks_cover_chain(a: AccountModel, b: AccountModel, c: AccountModel)
    requires
        marks_cover(a, b),
        marks_cover(b, c),
    ensures
        marks_cover(a, c),
{
    assert forall|t: Seq<char>| #[trigger]
        lookup(c.supplied, t) != lookup(a.supplied, t) implies c.affected_farms.contains(
        FarmKey::Supplied(t),
    ) by {
        if lookup(b.supplied, t) != lookup(a.supplied, t) {
            assert(b.affected_farms.contains(FarmKey::Supplied(t)));
        }
    }
    assert forall|t: Seq<char>| #[trigger]
        lookup(c.borrowed, t) != lookup(a.borrowed, t) implies c.affected_farms.contains(
        FarmKey::Borrowed(t),
    ) by {
        if lookup(b.borrowed, t) != lookup(a.borrowed, t) {
            assert(b.affected_farms.contains(FarmKey::Borrowed(t)));
        }
    }
}

/// The steps of which the actions are made keep the marks covering: a
/// mark covers nothing less, and a position that is set, a loan or a
/// repayment is covered where its farm is marked.
pub proof fn lemma_marks_cover_steps(
    account: AccountModel,
    token_id: Seq<char>,
    position: AccountAsset,
    shares: Shares,
    farm: FarmKey,
)
    requires
        distinct_keys(account.supplied),
        distinct_keys(account.borrowed),
    ensures
        marks_cover(account, account),
        marks_cover(account, account.with_affected_farm(farm)),
        marks_cover(account, account.without_nft_asset(token_id)),
        forall|nft: AccountNFTAsset| #[trigger]
            marks_cover(account, account.with_nft_asset(token_id, nft)),
        account.affected_farms.contains(FarmKey::Supplied(token_id)) ==> marks_cover(
            account,
            account.with_asset(token_id, position),
        ),
        account.affected_farms.contains(FarmKey::Borrowed(token_id)) ==> (account.borrowed_more(
            token_id,
            shares,
        ) matches Ok(a) ==> marks_cover(account, a)),
        account.affected_farms.contains(FarmKey::Borrowed(token_id)) ==> (account.borrowed_less(
            token_id,
            shares,
        ) matches Ok(a) ==> marks_cover(account, a)),
{
    assert forall|f: FarmKey| #[trigger] account.affected_farms.contains(f) implies with_farm(
        account.affected_farms,
        farm,
    ).contains(f) by {
        lemma_with_farm(account.affected_farms, farm, f);
    }
    lemma_upsert_distinct(account.supplied, token_id, position.shares);
    lemma_without_distinct(account.supplied, token_id);
    lemma_without_distinct(account.borrowed, token_id);
    assert forall|t: Seq<char>| t != token_id implies #[trigger] lookup(
        account.with_asset(token_id, position).supplied,
        t,
    ) == lookup(account.supplied, t) by {
        lemma_other_keys(account.supplied, token_id, position.shares, t);
    }
    if account.borrowed_more(token_id, shares) is Ok {
        let a = account.borrowed_more(token_id, shares)->Ok_0;
        let held: u128 = match lookup(account.borrowed, token_id) {
            Some(s) => s.0,
            None => 0,
        };
        let total = Shares((held + shares.0) as u128);
        lemma_upsert_distinct(account.borrowed, token_id, total);
        assert forall|t: Seq<char>| t != token_id implies #[trigger] lookup(a.borrowed, t)
            == lookup(account.borrowed, t) by {
            lemma_other_keys(account.borrowed, token_id, total, t);
        }
    }
    if account.borrowed_less(token_id, shares) is Ok {
        let a = account.borrowed_less(token_id, shares)->Ok_0;
        let held = lookup(account.borrowed, token_id)->Some_0;
        let rest = Shares((held.0 - shares.0) as u128);
        lemma_upsert_distinct(account.borrowed, token_id, rest);
        assert forall|t: Seq<char>| t != token_id implies #[trigger] lookup(a.borrowed, t)
            == lookup(account.borrowed, t) by {
            lemma_other_keys(account.borrowed, token_id, rest, t);
        }
    }
}

} // verus!

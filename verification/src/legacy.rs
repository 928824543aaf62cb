//! Earlier forms of the stored records, and their way into the current one.

use crate::account::{Account, AccountModel};
use crate::account_farm::{farm_keys, farms_view, AccountFarmEntry, FarmId, FarmKey};
use crate::account_nft_asset::AccountNFTAsset;
use crate::asset::Asset;
use crate::pool::Shares;
use crate::str_map::StrMap;
use crate::utils::AccountId;
use vstd::prelude::*;

verus! {

/// An account as it was stored before booster tokens could be staked.
pub struct AccountV0 {
    pub account_id: AccountId,
    pub supplied: StrMap<Shares>,
    pub borrowed: StrMap<Shares>,
    pub nft_supplied: StrMap<AccountNFTAsset>,
    pub farms: Vec<AccountFarmEntry>,
}

impl AccountV0 {
    /// The account in its current form: with no farm marked and nothing
    /// staked.
    pub fn into_current(self) -> (r: Account)
        ensures
            r@ == (AccountModel {
                account_id: self.account_id@,
                supplied: self.supplied@,
                borrowed: self.borrowed@,
                nft_supplied: self.nft_supplied@,
                farms: farms_view(self.farms@),
                affected_farms: Seq::<FarmKey>::empty(),
                booster_staking: None,
            }),
    {
        let affected_farms: Vec<FarmId> = Vec::new();
        assert(farm_keys(affected_farms@) =~= Seq::<FarmKey>::empty());
        Account {
            account_id: self.account_id,
            supplied: self.supplied,
            borrowed: self.borrowed,
            nft_supplied: self.nft_supplied,
            farms: self.farms,
            affected_farms,
            booster_staking: None,
        }
    }
}

/// The stored form of an account, by version.
pub enum VAccount {
    V0(AccountV0),
    Current(Account),
}

impl VAccount {
    /// The account in its current form.
    pub fn into_current(self) -> (r: Account)
        ensures
            match self {
                VAccount::V0(a) => r@ == (AccountModel {
                    account_id: a.account_id@,
                    supplied: a.supplied@,
                    borrowed: a.borrowed@,
                    nft_supplied: a.nft_supplied@,
                    farms: farms_view(a.farms@),
                    affected_farms: Seq::<FarmKey>::empty(),
                    booster_staking: None,
                }),
                VAccount::Current(a) => r == a,
            },
    {
        match self {
            VAccount::V0(c) => c.into_current(),
            VAccount::Current(c) => c,
        }
    }

    /// The stored form of an account.
    pub fn from_current(c: Account) -> (r: VAccount)
        ensures
            r == VAccount::Current(c),
    {
        VAccount::Current(c)
    }
}

/// The stored form of an asset, by version.
pub enum VAsset {
    Current(Asset),
}

impl VAsset {
    /// The asset in its current form.
    pub fn into_current(self) -> (r: Asset)
        ensures
            r == self->Current_0,
    {
        match self {
            VAsset::Current(c) => c,
        }
    }

    /// The stored form of an asset.
    pub fn from_current(c: Asset) -> (r: VAsset)
        ensures
            r == VAsset::Current(c),
    {
        VAsset::Current(c)
    }
}

} // verus!

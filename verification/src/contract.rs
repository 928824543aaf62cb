//! The ledger: its assets, its accounts, and the time of the call that it
//! serves.

use crate::account::{Account, AccountModel};
use crate::asset::{Asset, AssetModel};
use crate::config::Config;
use crate::error::Error;
use crate::str_map::{
    deep, distinct_keys, lemma_deep, lemma_deep_upsert, lookup, upsert, without, Entries,
    StrMap,
};
use crate::utils::{AccountId, NFTContractId, NFTTokenId, Timestamp, TokenId};
use vstd::prelude::*;

verus! {

/// The state of the ledger during one call.
pub struct Contract {
    /// The accounts, by name.
    pub accounts: StrMap<Account>,
    /// The assets, by token.
    pub assets: StrMap<Asset>,
    /// The ledger's parameters.
    pub config: Config,
    /// The time of the call that is being served.  Every asset is read as
    /// of this time.
    pub block_timestamp: Timestamp,
}

/// The ledger as the contracts see it.
pub struct ContractModel {
    pub accounts: Entries<AccountModel>,
    pub assets: Entries<AssetModel>,
    pub config: Config,
    pub block_timestamp: Timestamp,
}

impl View for Contract {
    type V = ContractModel;

    open spec fn view(&self) -> ContractModel {
        ContractModel {
            accounts: deep(self.accounts@),
            assets: deep(self.assets@),
            config: self.config,
            block_timestamp: self.block_timestamp,
        }
    }
}

/// The result of reading an asset, with the asset replaced by its view.
pub open spec fn asset_result(r: Result<Asset, Error>) -> Result<AssetModel, Error> {
    match r {
        Ok(a) => Ok(a@),
        Err(e) => Err(e),
    }
}

/// The result of reading an account, with the account replaced by its view.
pub open spec fn account_result(r: Result<Account, Error>) -> Result<AccountModel, Error> {
    match r {
        Ok(a) => Ok(a@),
        Err(e) => Err(e),
    }
}

impl ContractModel {
    /// The asset of `token_id`, brought up to the time of the call.
    pub open spec fn asset(self, token_id: Seq<char>) -> Result<AssetModel, Error> {
        match lookup(self.assets, token_id) {
            None => Err(Error::AssetNotFound),
            Some(a) => a.updated(self.block_timestamp),
        }
    }

    /// The ledger with `asset` stored under `token_id`, as `settled` leaves
    /// it.
    pub open spec fn with_asset(self, token_id: Seq<char>, asset: AssetModel) -> Result<
        ContractModel,
        Error,
    > {
        match asset.settled() {
            Err(e) => Err(e),
            Ok(a) => Ok(ContractModel { assets: upsert(self.assets, token_id, a), ..self }),
        }
    }

    /// The account named `account_id`.
    pub open spec fn account(self, account_id: Seq<char>) -> Result<AccountModel, Error> {
        match lookup(self.accounts, account_id) {
            None => Err(Error::AccountNotFound),
            Some(a) => Ok(a),
        }
    }

    /// The ledger with `account` stored under `account_id`.
    pub open spec fn with_account(self, account_id: Seq<char>, account: AccountModel) -> ContractModel {
        ContractModel { accounts: upsert(self.accounts, account_id, account), ..self }
    }

    /// No two assets share a token and no two accounts a name.
    pub open spec fn well_formed(self) -> bool {
        distinct_keys(self.assets) && distinct_keys(self.accounts)
    }

    /// Every asset holds at least what it has lent out.
    pub open spec fn solvent(self) -> bool {
        forall|i: int| 0 <= i < self.assets.len() ==> (#[trigger] self.assets[i]).1.solvent()
    }
}

impl Clone for Contract {
    fn clone(&self) -> (r: Self)
        ensures
            r@ == self@,
    {
        let accounts = self.accounts.clone();
        let assets = self.assets.clone();
        proof {
            assert(deep(accounts@) =~= deep(self.accounts@));
            assert(deep(assets@) =~= deep(self.assets@));
        }
        Contract {
            accounts,
            assets,
            config: self.config.clone(),
            block_timestamp: self.block_timestamp,
        }
    }
}

impl Contract {
    /// The version of the ledger.
    pub fn get_version(&self) -> (r: String)
        ensures
            r@ == "0.6.0"@,
    {
        String::from_str("0.6.0")
    }

    /// A ledger without assets and accounts, at the time `block_timestamp`.
    pub fn new(config: Config, block_timestamp: Timestamp) -> (r: Contract)
        ensures
            r@ == (ContractModel {
                accounts: Seq::<(Seq<char>, AccountModel)>::empty(),
                assets: Seq::<(Seq<char>, AssetModel)>::empty(),
                config,
                block_timestamp,
            }),
    {
        let r = Contract { accounts: StrMap::new(), assets: StrMap::new(), config, block_timestamp };
        proof {
            assert(deep(r.accounts@) =~= Seq::<(Seq<char>, AccountModel)>::empty());
            assert(deep(r.assets@) =~= Seq::<(Seq<char>, AssetModel)>::empty());
        }
        r
    }

    /// Starts serving a call made at the time `block_timestamp`.
    pub fn set_block_timestamp(&mut self, block_timestamp: Timestamp)
        ensures
            final(self)@ == (ContractModel { block_timestamp, ..old(self)@ }),
    {
        self.block_timestamp = block_timestamp;
    }

    /// The asset of `token_id`, if the ledger has it, brought up to the time
    /// of the call.
    pub fn internal_get_asset(&self, token_id: &TokenId) -> (r: Result<Option<Asset>, Error>)
        ensures
            match lookup(self@.assets, token_id@) {
                None => r matches Ok(None),
                Some(a) => match a.updated(self@.block_timestamp) {
                    Ok(v) => r matches Ok(Some(x)) && x@ == v,
                    Err(e) => r matches Err(e2) && e2 == e,
                },
            },
    {
        proof {
            use_type_invariant(&self.assets);
            use_type_invariant(&self.accounts);
            lemma_deep(self.assets@, token_id@);
        }
        match self.assets.get(token_id) {
            None => Ok(None),
            Some(stored) => {
                let mut asset = stored.clone();
                asset.update(self.block_timestamp)?;
                Ok(Some(asset))
            },
        }
    }

    /// The asset of `token_id`, brought up to the time of the call; its
    /// absence is an error.
    pub fn internal_unwrap_asset(&self, token_id: &TokenId) -> (r: Result<Asset, Error>)
        ensures
            asset_result(r) == self@.asset(token_id@),
    {
        match self.internal_get_asset(token_id)? {
            Some(a) => Ok(a),
            None => Err(Error::AssetNotFound),
        }
    }

    /// Stores `asset` under `token_id`, after sweeping an amount that no
    /// share stands for into the reserve.  An asset whose pools are unsound
    /// is refused, and the ledger is left as it was.
    pub fn internal_set_asset(&mut self, token_id: &TokenId, asset: Asset) -> (r: Result<
        (),
        Error,
    >)
        ensures
            match old(self)@.with_asset(token_id@, asset@) {
                Ok(c) => r is Ok && final(self)@ == c,
                Err(e) => r == Err::<(), Error>(e) && final(self)@ == old(self)@,
            },
    {
        let mut asset = asset;
        asset.settle()?;
        proof {
            use_type_invariant(&self.assets);
            use_type_invariant(&self.accounts);
            lemma_deep_upsert(self.assets@, token_id@, asset);
        }
        self.assets.insert(token_id.clone(), asset);
        Ok(())
    }

    /// Gives the non-fungible token `token_id` of the contract
    /// `nft_contract_id` to `owner_id` in `asset`, and stores the asset.
    pub fn internal_set_nft_asset(
        &mut self,
        nft_contract_id: &NFTContractId,
        owner_id: AccountId,
        token_id: NFTTokenId,
        asset: Asset,
    )
        ensures
            final(self)@ == (ContractModel {
                assets: upsert(
                    old(self)@.assets,
                    nft_contract_id@,
                    AssetModel {
                        nft_supplied: crate::asset::with_nft(
                            asset@.nft_supplied,
                            owner_id,
                            token_id,
                            old(self)@.block_timestamp,
                        ),
                        ..asset@
                    },
                ),
                ..old(self)@
            }),
    {
        let mut asset = asset;
        asset.put_nft(owner_id, token_id, self.block_timestamp);
        proof {
            use_type_invariant(&self.assets);
            use_type_invariant(&self.accounts);
            lemma_deep_upsert(self.assets@, nft_contract_id@, asset);
        }
        self.assets.insert(nft_contract_id.clone(), asset);
    }

    /// Takes the non-fungible token `token_id` out of `asset`, and stores
    /// the asset under `nft_contract_id`.
    pub fn internal_remove_nft_asset(
        &mut self,
        nft_contract_id: &NFTContractId,
        token_id: NFTTokenId,
        asset: Asset,
    )
        ensures
            final(self)@ == (ContractModel {
                assets: upsert(
                    old(self)@.assets,
                    nft_contract_id@,
                    AssetModel {
                        nft_supplied: crate::asset::without_nft(asset@.nft_supplied, token_id@),
                        ..asset@
                    },
                ),
                ..old(self)@
            }),
    {
        let mut asset = asset;
        asset.take_nft(&token_id);
        proof {
            use_type_invariant(&self.assets);
            use_type_invariant(&self.accounts);
            lemma_deep_upsert(self.assets@, nft_contract_id@, asset);
        }
        self.assets.insert(nft_contract_id.clone(), asset);
    }

    /// The account named `account_id`, if it is registered.
    pub fn internal_get_account(&self, account_id: &AccountId) -> (r: Option<Account>)
        ensures
            match r {
                Some(a) => lookup(self@.accounts, account_id@) == Some(a@),
                None => lookup(self@.accounts, account_id@).is_none(),
            },
    {
        proof {
            use_type_invariant(&self.assets);
            use_type_invariant(&self.accounts);
            lemma_deep(self.accounts@, account_id@);
        }
        match self.accounts.get(account_id) {
            Some(a) => Some(a.clone()),
            None => None,
        }
    }

    /// The account named `account_id`; its absence is an error.
    pub fn internal_unwrap_account(&self, account_id: &AccountId) -> (r: Result<Account, Error>)
        ensures
            account_result(r) == self@.account(account_id@),
    {
        match self.internal_get_account(account_id) {
            Some(a) => Ok(a),
            None => Err(Error::AccountNotFound),
        }
    }

    /// Stores `account` under `account_id`.
    pub fn internal_set_account(&mut self, account_id: &AccountId, account: Account)
        ensures
            final(self)@ == old(self)@.with_account(account_id@, account@),
    {
        proof {
            use_type_invariant(&self.assets);
            use_type_invariant(&self.accounts);
            lemma_deep_upsert(self.accounts@, account_id@, account);
        }
        self.accounts.insert(account_id.clone(), account);
    }

}

} // verus!

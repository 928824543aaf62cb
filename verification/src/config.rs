//! The parameters of the whole ledger.

use crate::asset::{Asset, AssetModel};
use crate::asset_config::AssetConfig;
use crate::contract::{Contract, ContractModel};
use crate::error::Error;
use crate::nft_pool::NftPool;
use crate::pool::{Pool, Shares};
use crate::str_map::has_key;
use crate::utils::{AccountId, DurationSec, TokenId};
use vstd::prelude::*;

verus! {

/// What the owner fixes for the ledger as a whole.
#[derive(Debug)]
pub struct Config {
    /// The account of the price oracle.
    pub oracle_account_id: AccountId,
    /// The account that may change the configuration and the assets.
    pub owner_id: AccountId,
    /// The token that is staked for a boost.
    pub booster_token_id: TokenId,
    /// The decimals of the booster token.
    pub booster_decimals: u8,
    /// How many distinct assets an account may hold, supplied and borrowed
    /// together.
    pub max_num_assets: u32,
    /// The longest span over which the oracle may have gathered a price.
    pub maximum_recency_duration_sec: DurationSec,
    /// The greatest age at which a price is still used.
    pub maximum_staleness_duration_sec: DurationSec,
    /// The shortest time for which booster tokens can be staked.
    pub minimum_staking_duration_sec: DurationSec,
    /// The longest time for which booster tokens can be staked.
    pub maximum_staking_duration_sec: DurationSec,
    /// The boost of a stake of the longest time, in 1/10000 of the stake.
    pub x_booster_multiplier_at_maximum_staking_duration: u32,
    /// Whether debts that outgrew their collateral may be written off.
    pub force_closing_enabled: bool,
}

impl Clone for Config {
    fn clone(&self) -> (r: Self)
        ensures
            r == *self,
    {
        Config {
            oracle_account_id: self.oracle_account_id.clone(),
            owner_id: self.owner_id.clone(),
            booster_token_id: self.booster_token_id.clone(),
            booster_decimals: self.booster_decimals,
            max_num_assets: self.max_num_assets,
            maximum_recency_duration_sec: self.maximum_recency_duration_sec,
            maximum_staleness_duration_sec: self.maximum_staleness_duration_sec,
            minimum_staking_duration_sec: self.minimum_staking_duration_sec,
            maximum_staking_duration_sec: self.maximum_staking_duration_sec,
            x_booster_multiplier_at_maximum_staking_duration: self.x_booster_multiplier_at_maximum_staking_duration,
            force_closing_enabled: self.force_closing_enabled,
        }
    }
}

impl ContractModel {
    /// Whether `caller` may change the configuration and the assets.
    pub open spec fn owned_by(self, caller: Seq<char>) -> Result<(), Error> {
        if caller == self.config.owner_id@ {
            Ok(())
        } else {
            Err(Error::NotOwner)
        }
    }

    /// The ledger after `caller` added an asset for `token_id`: empty, and
    /// as of the time of the call.
    pub open spec fn asset_added(self, caller: Seq<char>, token_id: Seq<char>, config: AssetConfig) -> Result<
        ContractModel,
        Error,
    > {
        if !config.valid() {
            Err(Error::InvalidConfig)
        } else if caller != self.config.owner_id@ {
            Err(Error::NotOwner)
        } else if has_key(self.assets, token_id) {
            Err(Error::AssetExists)
        } else {
            self.with_asset(
                token_id,
                AssetModel {
                    supplied: Pool { shares: Shares(0), balance: 0 },
                    borrowed: Pool { shares: Shares(0), balance: 0 },
                    nft_supplied: Seq::<NftPool>::empty(),
                    reserved: 0,
                    last_update_timestamp: self.block_timestamp,
                    config,
                },
            )
        }
    }

    /// The ledger after `caller` gave the asset of `token_id` a new
    /// configuration.  The asset is brought up to date under the old one.
    pub open spec fn asset_updated(self, caller: Seq<char>, token_id: Seq<char>, config: AssetConfig) -> Result<
        ContractModel,
        Error,
    > {
        if !config.valid() {
            Err(Error::InvalidConfig)
        } else if caller != self.config.owner_id@ {
            Err(Error::NotOwner)
        } else {
            match self.asset(token_id) {
                Err(e) => Err(e),
                Ok(asset) => self.with_asset(token_id, AssetModel { config, ..asset }),
            }
        }
    }
}

impl Contract {
    /// The ledger's parameters.
    pub fn internal_config(&self) -> (r: Config)
        ensures
            r == self.config,
    {
        self.config.clone()
    }

    /// The account of the price oracle.
    pub fn get_oracle_account_id(&self) -> (r: AccountId)
        ensures
            r == self.config.oracle_account_id,
    {
        self.config.oracle_account_id.clone()
    }

    /// Refuses a caller that is not the owner.
    pub fn assert_owner(&self, caller: &AccountId) -> (r: Result<(), Error>)
        ensures
            r == self@.owned_by(caller@),
    {
        if *caller == self.config.owner_id {
            Ok(())
        } else {
            Err(Error::NotOwner)
        }
    }

    /// Adds an asset for `token_id`, on behalf of the owner.  A refused
    /// call leaves the ledger as it was.
    pub fn add_asset(&mut self, caller: &AccountId, token_id: &TokenId, asset_config: AssetConfig) -> (r:
        Result<(), Error>)
        ensures
            match old(self)@.asset_added(caller@, token_id@, asset_config) {
                Ok(c) => r is Ok && final(self)@ == c,
                Err(e) => r == Err::<(), Error>(e) && final(self)@ == old(self)@,
            },
    {
        asset_config.assert_valid()?;
        self.assert_owner(caller)?;
        proof {
            use_type_invariant(&self.assets);
            crate::str_map::lemma_deep(self.assets@, token_id@);
        }
        if self.assets.contains_key(token_id) {
            return Err(Error::AssetExists);
        }
        self.internal_set_asset(token_id, Asset::new(self.block_timestamp, asset_config))
    }

    /// Gives the asset of `token_id` a new configuration, on behalf of the
    /// owner.  A refused call leaves the ledger as it was.
    pub fn update_asset(&mut self, caller: &AccountId, token_id: &TokenId, asset_config: AssetConfig) -> (r:
        Result<(), Error>)
        ensures
            match old(self)@.asset_updated(caller@, token_id@, asset_config) {
                Ok(c) => r is Ok && final(self)@ == c,
                Err(e) => r == Err::<(), Error>(e) && final(self)@ == old(self)@,
            },
    {
        asset_config.assert_valid()?;
        self.assert_owner(caller)?;
        let mut asset = self.internal_unwrap_asset(token_id)?;
        asset.config = asset_config;
        self.internal_set_asset(token_id, asset)
    }
}

} // verus!

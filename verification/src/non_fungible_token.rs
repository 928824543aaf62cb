//! Non-fungible tokens on their way into the ledger.

use crate::account::AccountModel;
use crate::account_farm::{FarmId, FarmKey};
use crate::asset::{with_nft, AssetModel};
use crate::contract::{Contract, ContractModel};
use crate::error::Error;
use crate::str_map::upsert;
use crate::utils::{AccountId, NFTContractId, NFTTokenId};
use vstd::prelude::*;

verus! {

impl ContractModel {
    /// The ledger after the account `sender_id` sent the non-fungible token
    /// `token_id` of the contract `nft_contract_id` to it: the token is
    /// collateral of the account, and is held in the pool of its asset
    /// under the account's name.  The farms of those who supply the
    /// contract's tokens are marked in the account.
    pub open spec fn nft_received(
        self,
        sender_id: AccountId,
        nft_contract_id: NFTContractId,
        token_id: NFTTokenId,
    ) -> Result<ContractModel, Error> {
        match self.asset(nft_contract_id@) {
            Err(e) => Err(e),
            Ok(asset) => if !asset.config.can_deposit {
                Err(Error::DepositDisabled)
            } else {
                match self.account(sender_id@) {
                    Err(e) => Err(e),
                    Ok(account) => {
                        let supplied = self.nft_deposited(
                            account.with_affected_farm(
                                FarmKey::Supplied(nft_contract_id@),
                            ).with_affected_farm(FarmKey::SuppliedNFT(nft_contract_id@)),
                            nft_contract_id,
                            token_id,
                        );
                        let stored = self.with_account(sender_id@, supplied);
                        Ok(
                            ContractModel {
                                assets: upsert(
                                    stored.assets,
                                    nft_contract_id@,
                                    AssetModel {
                                        nft_supplied: with_nft(
                                            asset.nft_supplied,
                                            sender_id,
                                            token_id,
                                            self.block_timestamp,
                                        ),
                                        ..asset
                                    },
                                ),
                                ..stored
                            },
                        )
                    },
                }
            },
        }
    }
}

impl Contract {
    /// Takes the non-fungible token `token_id` of the contract
    /// `nft_contract_id` that the account `sender_id` sent to the ledger, as
    /// collateral of the account.  A refused call leaves the ledger as it
    /// was.
    pub fn internal_nft_on_transfer(
        &mut self,
        sender_id: &AccountId,
        nft_contract_id: &NFTContractId,
        token_id: &NFTTokenId,
    ) -> (r: Result<(), Error>)
        ensures
            match old(self)@.nft_received(*sender_id, *nft_contract_id, *token_id) {
                Ok(c) => r is Ok && final(self)@ == c,
                Err(e) => r == Err::<(), Error>(e) && final(self)@ == old(self)@,
            },
    {
        let asset = self.internal_unwrap_asset(nft_contract_id)?;
        if !asset.config.can_deposit {
            return Err(Error::DepositDisabled);
        }
        let mut account = self.internal_unwrap_account(sender_id)?;
        account.add_affected_farm(FarmId::Supplied(nft_contract_id.clone()));
        account.add_affected_farm(FarmId::SuppliedNFT(nft_contract_id.clone()));
        self.internal_nft_deposit(&mut account, nft_contract_id, token_id);
        self.internal_set_account(sender_id, account);
        self.internal_set_nft_asset(nft_contract_id, sender_id.clone(), token_id.clone(), asset);
        Ok(())
    }
}

} // verus!

//! A non-fungible token that an account has supplied as collateral.

use crate::utils::{AccountId, NFTContractId, NFTTokenId, Timestamp};
use vstd::prelude::*;

verus! {

/// One non-fungible token of an account, with the time of its deposit.
#[derive(Debug)]
pub struct AccountNFTAsset {
    pub nft_contract_id: NFTContractId,
    pub nft_token_id: NFTTokenId,
    pub deposit_timestamp: Timestamp,
}

impl Clone for AccountNFTAsset {
    fn clone(&self) -> (r: Self)
        ensures
            r == *self,
    {
        AccountNFTAsset {
            nft_contract_id: self.nft_contract_id.clone(),
            nft_token_id: self.nft_token_id.clone(),
            deposit_timestamp: self.deposit_timestamp,
        }
    }
}

impl AccountNFTAsset {
    /// Whether the entry stands for no token: such an entry is named "0".
    pub open spec fn spec_is_empty(&self) -> bool {
        self.nft_token_id@ == "0"@
    }

    /// The entry that stands for no token, under the ledger's own account
    /// and the present time.
    pub fn new(current_account_id: AccountId, timestamp: Timestamp) -> (r: AccountNFTAsset)
        ensures
            r.nft_contract_id == current_account_id,
            r.deposit_timestamp == timestamp,
            r.spec_is_empty(),
    {
        AccountNFTAsset {
            nft_contract_id: current_account_id,
            nft_token_id: String::from_str("0"),
            deposit_timestamp: timestamp,
        }
    }

    /// Whether the entry stands for no token.
    pub fn is_empty(&self) -> (r: bool)
        ensures
            r == self.spec_is_empty(),
    {
        let none = String::from_str("0");
        self.nft_token_id == none
    }
}

} // verus!

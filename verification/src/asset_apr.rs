//! The yearly rates of an asset, for display.

use crate::asset::Asset;
use crate::big_decimal::BigDecimal;
use crate::contract::Contract;
use crate::error::Error;
use crate::utils::TokenId;
use vstd::prelude::*;

verus! {

/// What an asset earns and charges over a year.
#[derive(Debug)]
pub struct AssetAprView {
    pub token_id: TokenId,
    /// What the suppliers earn, farms aside.
    pub supply_apr: BigDecimal,
    /// What the borrowers pay, farms aside.
    pub borrow_apr: BigDecimal,
}

impl Contract {
    /// The yearly rates of `asset`, under the name `token_id`.
    pub fn asset_into_apr_view(&self, token_id: TokenId, asset: Asset) -> (r: Result<
        AssetAprView,
        Error,
    >)
        ensures
            match asset@.supply_apr() {
                Err(e) => r matches Err(e2) && e2 == e,
                Ok(supply) => match asset@.borrow_apr() {
                    Err(e) => r matches Err(e2) && e2 == e,
                    Ok(borrow) => r matches Ok(v) && v.token_id == token_id && v.supply_apr@
                        == supply && v.borrow_apr@ == borrow,
                },
            },
    {
        let supply_apr = asset.get_supply_apr()?;
        let borrow_apr = asset.get_borrow_apr()?;
        Ok(AssetAprView { token_id, supply_apr, borrow_apr })
    }
}

} // verus!

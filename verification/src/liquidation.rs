//! Liquidations: one account repays debts of another that is at risk, and
//! takes collateral of it at a discount.  And the writing off of debts that
//! are worth more than all the collateral behind them.

use crate::account::{
    lemma_marks_cover_chain, lemma_marks_cover_steps, lemma_with_farm, marks_cover, with_farm,
    Account, AccountModel,
};
use crate::account_asset::AccountAsset;
use crate::account_nft_asset::AccountNFTAsset;
use crate::account_farm::{FarmId, FarmKey};
use crate::actions::{
    lemma_asset_solvent, lemma_repay_keeps_solvent, lemma_upsert_solvent,
    lemma_with_asset_solvent, borrowed_step, collateral_step, nft_collateral_step,
    spec_max_discount, spec_value, AssetAmount, NFTAsset, NFT_BALANCE,
};
use crate::asset::{with_nft, AssetModel};
use crate::big_decimal::{spec_add, spec_mul, spec_sub, BigDecimal, BIG_DIVISOR};
use crate::contract::{Contract, ContractModel};
use crate::error::Error;
use crate::events::emit;
use crate::events::{Event, EventView};
use crate::fold::{fold_results, lemma_fold_keeps, lemma_fold_same_steps, lemma_fold_sticky};
use crate::nft_pool::{holds_token, token_position};
use crate::pool::Shares;
use crate::prices::{Price, Prices};
use crate::str_map::{distinct_keys, lookup, upsert, Entries, StrMap};
use crate::utils::{nft_contract_token_id, spec_nft_key, AccountId};
use vstd::prelude::*;

verus! {

/// A liquidation under way: the ledger, the two accounts, and the values
/// repaid and taken so far.
pub struct LiquidationState {
    pub contract: ContractModel,
    pub liquidator: AccountModel,
    pub target: AccountModel,
    pub repaid: nat,
    pub taken: nat,
}

/// The liquidation after the liquidator repaid what `asset_amount` asks for
/// of the target's debt, out of its own supplied position.  The farms of
/// both positions are marked.
#[verifier::opaque]
pub open spec fn debt_repaid(
    prices: Entries<Price>,
    s: LiquidationState,
    asset_amount: AssetAmount,
) -> Result<LiquidationState, Error> {
    let token_id = asset_amount.token_id@;
    let target = s.target.with_affected_farm(FarmKey::Borrowed(token_id));
    match s.liquidator.asset_or_error(token_id) {
        Err(e) => Err(e),
        Ok(position) => match s.contract.repaid(position, target, asset_amount) {
            Err(e) => Err(e),
            Ok((c, position2, target2, amount)) => match c.asset(token_id) {
                Err(e) => Err(e),
                Ok(asset) => match spec_value(prices, token_id, amount, asset.config.extra_decimals) {
                    Err(e) => Err(e),
                    Ok(value) => match spec_add(s.repaid, value) {
                        Err(e) => Err(e),
                        Ok(sum) => Ok(
                            LiquidationState {
                                contract: c,
                                liquidator: s.liquidator.with_affected_farm(
                                    FarmKey::Supplied(token_id),
                                ).with_asset(token_id, position2),
                                target: target2,
                                repaid: sum,
                                taken: s.taken,
                            },
                        ),
                    },
                },
            },
        },
    }
}

/// The liquidation after the supplied shares that `asset_amount` asks for
/// went from the target to the liquidator.  The farm of the position is
/// marked in both accounts.
#[verifier::opaque]
pub open spec fn collateral_taken(
    prices: Entries<Price>,
    s: LiquidationState,
    asset_amount: AssetAmount,
) -> Result<LiquidationState, Error> {
    let token_id = asset_amount.token_id@;
    match s.contract.asset(token_id) {
        Err(e) => Err(e),
        Ok(asset) => {
            let target = s.target.with_affected_farm(FarmKey::Supplied(token_id));
            match s.contract.supplied_moved(
                s.liquidator.asset_or_default(token_id),
                target,
                asset_amount,
            ) {
                Err(e) => Err(e),
                Ok((position2, target2, amount)) => match spec_value(
                    prices,
                    token_id,
                    amount,
                    asset.config.extra_decimals,
                ) {
                    Err(e) => Err(e),
                    Ok(value) => match spec_add(s.taken, value) {
                        Err(e) => Err(e),
                        Ok(sum) => Ok(
                            LiquidationState {
                                contract: s.contract,
                                liquidator: s.liquidator.with_affected_farm(
                                    FarmKey::Supplied(token_id),
                                ).with_asset(token_id, position2),
                                target: target2,
                                repaid: s.repaid,
                                taken: sum,
                            },
                        ),
                    },
                },
            }
        },
    }
}

/// The liquidation after the non-fungible token `nft` went from the target
/// to the liquidator: in the accounts, and in the pool of its asset.  The
/// token counts for one unit of its asset.
#[verifier::opaque]
pub open spec fn nft_taken(
    prices: Entries<Price>,
    liquidator_id: AccountId,
    target_id: Seq<char>,
    s: LiquidationState,
    nft: NFTAsset,
) -> Result<LiquidationState, Error> {
    let contract_id = nft.nft_contract_id@;
    let key = spec_nft_key(contract_id, nft.token_id@);
    match s.contract.asset(contract_id) {
        Err(e) => Err(e),
        Ok(asset) => if !holds_token(asset.nft_supplied, nft.token_id@) {
            Err(Error::NftNotFound)
        } else if asset.nft_supplied[token_position(asset.nft_supplied, nft.token_id@)].owner_id@
            != target_id {
            Err(Error::NftNotOwner)
        } else {
            match spec_value(prices, contract_id, NFT_BALANCE, asset.config.extra_decimals) {
                Err(e) => Err(e),
                Ok(value) => match spec_add(s.taken, value) {
                    Err(e) => Err(e),
                    Ok(sum) => Ok(
                        LiquidationState {
                            contract: ContractModel {
                                assets: upsert(
                                    s.contract.assets,
                                    contract_id,
                                    AssetModel {
                                        nft_supplied: with_nft(
                                            asset.nft_supplied,
                                            liquidator_id,
                                            nft.token_id,
                                            s.contract.block_timestamp,
                                        ),
                                        ..asset
                                    },
                                ),
                                ..s.contract
                            },
                            liquidator: match lookup(s.target.nft_supplied, key) {
                                Some(held) => s.liquidator.with_affected_farm(
                                    FarmKey::SuppliedNFT(contract_id),
                                ).with_nft_asset(key, held),
                                None => s.liquidator.with_affected_farm(
                                    FarmKey::SuppliedNFT(contract_id),
                                ).without_nft_asset(key),
                            },
                            target: s.target.with_affected_farm(
                                FarmKey::SuppliedNFT(contract_id),
                            ).without_nft_asset(key),
                            repaid: s.repaid,
                            taken: sum,
                        },
                    ),
                },
            }
        },
    }
}

/// `debt_repaid` as the step of a fold.
pub open spec fn repay_leg(prices: Entries<Price>) -> spec_fn(
    LiquidationState,
    AssetAmount,
) -> Result<LiquidationState, Error> {
    |s: LiquidationState, asset_amount: AssetAmount| debt_repaid(prices, s, asset_amount)
}

/// `collateral_taken` as the step of a fold.
pub open spec fn collateral_leg(prices: Entries<Price>) -> spec_fn(
    LiquidationState,
    AssetAmount,
) -> Result<LiquidationState, Error> {
    |s: LiquidationState, asset_amount: AssetAmount| collateral_taken(prices, s, asset_amount)
}

/// `nft_taken` as the step of a fold.
pub open spec fn nft_leg(
    prices: Entries<Price>,
    liquidator_id: AccountId,
    target_id: Seq<char>,
) -> spec_fn(LiquidationState, NFTAsset) -> Result<LiquidationState, Error> {
    |s: LiquidationState, nft: NFTAsset| nft_taken(prices, liquidator_id, target_id, s, nft)
}

/// The end of a liquidation that began at the discount `max_discount`: the
/// collateral taken, less the discount, must not be worth more than what
/// was repaid, and the target must be left at risk, at a smaller discount
/// than before.  Then the target is stored.
#[verifier::opaque]
pub open spec fn liquidation_closed(
    prices: Entries<Price>,
    target_id: Seq<char>,
    max_discount: nat,
    s: LiquidationState,
) -> Result<LiquidationState, Error> {
    match spec_sub(BIG_DIVISOR as nat, max_discount) {
        Err(e) => Err(e),
        Ok(kept) => match spec_mul(s.taken, kept) {
            Err(e) => Err(e),
            Ok(discounted) => if discounted > s.repaid {
                Err(Error::NotEnoughRepaid)
            } else {
                match spec_max_discount(s.contract, s.target, s.target, prices) {
                    Err(e) => Err(e),
                    Ok(new_discount) => if new_discount == 0 {
                        Err(Error::LiquidationTooLarge)
                    } else if new_discount >= max_discount {
                        Err(Error::HealthNotImproved)
                    } else {
                        Ok(
                            LiquidationState {
                                contract: s.contract.with_account(target_id, s.target),
                                ..s
                            },
                        )
                    },
                }
            },
        },
    }
}

/// A writing off under way: the ledger, the value written off so far, and
/// the farms that it touched.
pub struct ForceCloseState {
    pub contract: ContractModel,
    pub sum: nat,
    pub farms: Seq<FarmKey>,
}

/// The writing off after one supplied position went to its asset's reserve.
#[verifier::opaque]
pub open spec fn supplied_closed(
    prices: Entries<Price>,
    s: ForceCloseState,
    entry: (Seq<char>, Shares),
) -> Result<ForceCloseState, Error> {
    match s.contract.asset(entry.0) {
        Err(e) => Err(e),
        Ok(asset) => match asset.supplied.amount_for(entry.1, false) {
            Err(e) => Err(e),
            Ok(amount) => if asset.reserved + amount > u128::MAX {
                Err(Error::Overflow)
            } else {
                match asset.supplied.after_withdraw(entry.1, amount) {
                    Err(e) => Err(e),
                    Ok(pool) => match spec_value(
                        prices,
                        entry.0,
                        amount,
                        asset.config.extra_decimals,
                    ) {
                        Err(e) => Err(e),
                        Ok(value) => match spec_add(s.sum, value) {
                            Err(e) => Err(e),
                            Ok(sum) => match s.contract.with_asset(
                                entry.0,
                                AssetModel {
                                    supplied: pool,
                                    reserved: (asset.reserved + amount) as u128,
                                    ..asset
                                },
                            ) {
                                Err(e) => Err(e),
                                Ok(c) => Ok(
                                    ForceCloseState {
                                        contract: c,
                                        sum,
                                        farms: with_farm(s.farms, FarmKey::Supplied(entry.0)),
                                    },
                                ),
                            },
                        },
                    },
                }
            },
        },
    }
}

/// The writing off after one debt was paid out of its asset's reserve.
#[verifier::opaque]
pub open spec fn borrowed_closed(
    prices: Entries<Price>,
    s: ForceCloseState,
    entry: (Seq<char>, Shares),
) -> Result<ForceCloseState, Error> {
    match s.contract.asset(entry.0) {
        Err(e) => Err(e),
        Ok(asset) => match asset.borrowed.amount_for(entry.1, true) {
            Err(e) => Err(e),
            Ok(amount) => if asset.reserved < amount {
                Err(Error::NotEnoughReserve)
            } else {
                match asset.borrowed.after_withdraw(entry.1, amount) {
                    Err(e) => Err(e),
                    Ok(pool) => match spec_value(
                        prices,
                        entry.0,
                        amount,
                        asset.config.extra_decimals,
                    ) {
                        Err(e) => Err(e),
                        Ok(value) => match spec_add(s.sum, value) {
                            Err(e) => Err(e),
                            Ok(sum) => match s.contract.with_asset(
                                entry.0,
                                AssetModel {
                                    borrowed: pool,
                                    reserved: (asset.reserved - amount) as u128,
                                    ..asset
                                },
                            ) {
                                Err(e) => Err(e),
                                Ok(c) => Ok(
                                    ForceCloseState {
                                        contract: c,
                                        sum,
                                        farms: with_farm(s.farms, FarmKey::Borrowed(entry.0)),
                                    },
                                ),
                            },
                        },
                    },
                }
            },
        },
    }
}

/// `supplied_closed` as the step of a fold.
pub open spec fn supplied_close_step(prices: Entries<Price>) -> spec_fn(
    ForceCloseState,
    (Seq<char>, Shares),
) -> Result<ForceCloseState, Error> {
    |s: ForceCloseState, entry: (Seq<char>, Shares)| supplied_closed(prices, s, entry)
}

/// `borrowed_closed` as the step of a fold.
pub open spec fn borrowed_close_step(prices: Entries<Price>) -> spec_fn(
    ForceCloseState,
    (Seq<char>, Shares),
) -> Result<ForceCloseState, Error> {
    |s: ForceCloseState, entry: (Seq<char>, Shares)| borrowed_closed(prices, s, entry)
}

/// The view of the event of a liquidation.
pub open spec fn liquidate_event(
    account_id: Seq<char>,
    target_id: Seq<char>,
    taken: nat,
    repaid: nat,
) -> EventView {
    EventView {
        name: "liquidate"@,
        account_id,
        subject: target_id,
        nft_token_id: Seq::<char>::empty(),
        numbers: seq![taken, repaid],
    }
}

/// The view of the event of a writing off.
pub open spec fn force_close_event(target_id: Seq<char>, collateral: nat, borrowed: nat) -> EventView {
    EventView {
        name: "force_close"@,
        account_id: Seq::<char>::empty(),
        subject: target_id,
        nft_token_id: Seq::<char>::empty(),
        numbers: seq![collateral, borrowed],
    }
}

impl ContractModel {
    /// The start of a liquidation of the account `target_id`, or why there
    /// is none: the account must be at risk.  With it comes the discount.
    pub open spec fn liquidation_opened(
        self,
        liquidator: AccountModel,
        prices: Entries<Price>,
        target_id: Seq<char>,
    ) -> Result<(LiquidationState, nat), Error> {
        match self.account(target_id) {
            Err(e) => Err(e),
            Ok(target) => match spec_max_discount(self, target, target, prices) {
                Err(e) => Err(e),
                Ok(max_discount) => if max_discount == 0 {
                    Err(Error::NotAtRisk)
                } else {
                    Ok(
                        (
                            LiquidationState {
                                contract: self,
                                liquidator,
                                target,
                                repaid: 0,
                                taken: 0,
                            },
                            max_discount,
                        ),
                    )
                },
            },
        }
    }

    /// The ledger and the liquidator after the liquidation of the account
    /// `target_id`, with the values taken and repaid.
    pub open spec fn liquidated(
        self,
        liquidator: AccountModel,
        prices: Entries<Price>,
        target_id: Seq<char>,
        in_assets: Seq<AssetAmount>,
        out_assets: Seq<AssetAmount>,
    ) -> Result<LiquidationState, Error> {
        match self.liquidation_opened(liquidator, prices, target_id) {
            Err(e) => Err(e),
            Ok((s0, max_discount)) => match fold_results(
                s0,
                in_assets,
                repay_leg(prices),
                in_assets.len(),
            ) {
                Err(e) => Err(e),
                Ok(s1) => match fold_results(s1, out_assets, collateral_leg(prices), out_assets.len()) {
                    Err(e) => Err(e),
                    Ok(s2) => liquidation_closed(prices, target_id, max_discount, s2),
                },
            },
        }
    }

    /// The ledger and the liquidator after the liquidation of the account
    /// `target_id` for non-fungible tokens, with the values taken and
    /// repaid.
    pub open spec fn nft_liquidated(
        self,
        liquidator_id: AccountId,
        liquidator: AccountModel,
        prices: Entries<Price>,
        target_id: Seq<char>,
        in_assets: Seq<AssetAmount>,
        out_nft_assets: Seq<NFTAsset>,
    ) -> Result<LiquidationState, Error> {
        match self.liquidation_opened(liquidator, prices, target_id) {
            Err(e) => Err(e),
            Ok((s0, max_discount)) => match fold_results(
                s0,
                in_assets,
                repay_leg(prices),
                in_assets.len(),
            ) {
                Err(e) => Err(e),
                Ok(s1) => match fold_results(
                    s1,
                    out_nft_assets,
                    nft_leg(prices, liquidator_id, target_id),
                    out_nft_assets.len(),
                ) {
                    Err(e) => Err(e),
                    Ok(s2) => liquidation_closed(prices, target_id, max_discount, s2),
                },
            },
        }
    }

    /// The ledger after the debts of the account `target_id` were written
    /// off, with the values of the collateral and of the debts.  Everything
    /// that the account had supplied goes to the reserves, and the reserves
    /// pay what it had borrowed.
    pub open spec fn force_closed(self, prices: Entries<Price>, target_id: Seq<char>) -> Result<
        (ContractModel, nat, nat),
        Error,
    > {
        if !self.config.force_closing_enabled {
            Err(Error::ForceCloseDisabled)
        } else {
            match self.account(target_id) {
                Err(e) => Err(e),
                Ok(target) => match fold_results(
                    ForceCloseState { contract: self, sum: 0, farms: target.affected_farms },
                    target.supplied,
                    supplied_close_step(prices),
                    target.supplied.len(),
                ) {
                    Err(e) => Err(e),
                    Ok(s1) => match fold_results(
                        ForceCloseState { contract: s1.contract, sum: 0, farms: s1.farms },
                        target.borrowed,
                        borrowed_close_step(prices),
                        target.borrowed.len(),
                    ) {
                        Err(e) => Err(e),
                        Ok(s2) => if s2.sum <= s1.sum {
                            Err(Error::NotBadDebt)
                        } else {
                            Ok(
                                (
                                    s2.contract.with_account(
                                        target_id,
                                        AccountModel {
                                            supplied: Seq::<(Seq<char>, Shares)>::empty(),
                                            borrowed: Seq::<(Seq<char>, Shares)>::empty(),
                                            affected_farms: s2.farms,
                                            ..target
                                        },
                                    ),
                                    s1.sum,
                                    s2.sum,
                                ),
                            )
                        },
                    },
                },
            }
        }
    }
}

impl Contract {
    /// One step of the repaying: what `asset_amount` asks for of the debt of
    /// `liquidation_account` is repaid out of the supplied position of
    /// `account`.  Returns the value repaid so far.
    fn repay_one(
        &mut self,
        account: &mut Account,
        prices: &Prices,
        liquidation_account: &mut Account,
        asset_amount: &AssetAmount,
        repaid: &BigDecimal,
    ) -> (r: Result<BigDecimal, Error>)
        ensures
            match debt_repaid(
                prices@,
                LiquidationState {
                    contract: old(self)@,
                    liquidator: old(account)@,
                    target: old(liquidation_account)@,
                    repaid: repaid@,
                    taken: 0,
                },
                *asset_amount,
            ) {
                Ok(s) => r matches Ok(sum) && s == (LiquidationState {
                    contract: final(self)@,
                    liquidator: final(account)@,
                    target: final(liquidation_account)@,
                    repaid: sum@,
                    taken: 0,
                }),
                Err(e) => r matches Err(e2) && e2 == e,
            },
    {
        proof {
            reveal(debt_repaid);
        }
        liquidation_account.add_affected_farm(FarmId::Borrowed(asset_amount.token_id.clone()));
        let mut account_asset = account.internal_unwrap_asset(&asset_amount.token_id)?;
        let amount = self.internal_repay(&mut account_asset, liquidation_account, asset_amount)?;
        account.add_affected_farm(FarmId::Supplied(asset_amount.token_id.clone()));
        account.internal_set_asset(&asset_amount.token_id, account_asset);
        let asset = self.internal_unwrap_asset(&asset_amount.token_id)?;
        let value = Self::value_of(
            prices,
            &asset_amount.token_id,
            amount,
            asset.config.extra_decimals,
        )?;
        repaid.checked_add(&value)
    }

    /// Repays the debts `in_assets` of the account `liquidation_account` out
    /// of the supplied positions of `account`.  Returns the value repaid.
    #[verifier::loop_isolation(false)]
    fn liquidation_repay(
        &mut self,
        account: &mut Account,
        prices: &Prices,
        liquidation_account: &mut Account,
        in_assets: &Vec<AssetAmount>,
    ) -> (r: Result<BigDecimal, Error>)
        ensures
            match fold_results(
                LiquidationState {
                    contract: old(self)@,
                    liquidator: old(account)@,
                    target: old(liquidation_account)@,
                    repaid: 0,
                    taken: 0,
                },
                in_assets@,
                repay_leg(prices@),
                in_assets@.len(),
            ) {
                Ok(s) => r matches Ok(sum) && s == (LiquidationState {
                    contract: final(self)@,
                    liquidator: final(account)@,
                    target: final(liquidation_account)@,
                    repaid: sum@,
                    taken: 0,
                }),
                Err(e) => r matches Err(e2) && e2 == e,
            },
    {
        let ghost init = LiquidationState {
            contract: self@,
            liquidator: account@,
            target: liquidation_account@,
            repaid: 0,
            taken: 0,
        };
        let mut borrowed_repaid_sum = BigDecimal::zero();
        let mut i: usize = 0;
        while i < in_assets.len()
            invariant
                i <= in_assets@.len(),
                fold_results(init, in_assets@, repay_leg(prices@), i as nat) == Ok::<
                    LiquidationState,
                    Error,
                >(
                    LiquidationState {
                        contract: self@,
                        liquidator: account@,
                        target: liquidation_account@,
                        repaid: borrowed_repaid_sum@,
                        taken: 0,
                    },
                ),
            decreases in_assets@.len() - i,
        {
            proof {
                lemma_fold_sticky(
                    init,
                    in_assets@,
                    repay_leg(prices@),
                    (i + 1) as nat,
                    in_assets@.len(),
                );
            }
            borrowed_repaid_sum = self.repay_one(
                account,
                prices,
                liquidation_account,
                &in_assets[i],
                &borrowed_repaid_sum,
            )?;
            i += 1;
        }
        Ok(borrowed_repaid_sum)
    }

    /// One step of the taking: the supplied shares that `asset_amount` asks
    /// for go from `liquidation_account` to `account`.  Returns the value
    /// taken so far.
    fn take_one(
        &self,
        account: &mut Account,
        prices: &Prices,
        liquidation_account: &mut Account,
        asset_amount: &AssetAmount,
        repaid: &BigDecimal,
        taken: &BigDecimal,
    ) -> (r: Result<BigDecimal, Error>)
        ensures
            match collateral_taken(
                prices@,
                LiquidationState {
                    contract: self@,
                    liquidator: old(account)@,
                    target: old(liquidation_account)@,
                    repaid: repaid@,
                    taken: taken@,
                },
                *asset_amount,
            ) {
                Ok(s) => r matches Ok(sum) && s == (LiquidationState {
                    contract: self@,
                    liquidator: final(account)@,
                    target: final(liquidation_account)@,
                    repaid: repaid@,
                    taken: sum@,
                }),
                Err(e) => r matches Err(e2) && e2 == e,
            },
    {
        proof {
            reveal(collateral_taken);
        }
        let asset = self.internal_unwrap_asset(&asset_amount.token_id)?;
        liquidation_account.add_affected_farm(FarmId::Supplied(asset_amount.token_id.clone()));
        let mut account_asset = account.internal_get_asset_or_default(&asset_amount.token_id);
        let amount = self.internal_decrease_supplied(
            &mut account_asset,
            liquidation_account,
            asset_amount,
        )?;
        account.add_affected_farm(FarmId::Supplied(asset_amount.token_id.clone()));
        account.internal_set_asset(&asset_amount.token_id, account_asset);
        let value = Self::value_of(
            prices,
            &asset_amount.token_id,
            amount,
            asset.config.extra_decimals,
        )?;
        taken.checked_add(&value)
    }

    /// Moves the supplied positions `out_assets` from `liquidation_account`
    /// to `account`.  Returns the value taken.
    #[verifier::loop_isolation(false)]
    fn liquidation_take(
        &self,
        account: &mut Account,
        prices: &Prices,
        liquidation_account: &mut Account,
        out_assets: &Vec<AssetAmount>,
        repaid: &BigDecimal,
    ) -> (r: Result<BigDecimal, Error>)
        ensures
            match fold_results(
                LiquidationState {
                    contract: self@,
                    liquidator: old(account)@,
                    target: old(liquidation_account)@,
                    repaid: repaid@,
                    taken: 0,
                },
                out_assets@,
                collateral_leg(prices@),
                out_assets@.len(),
            ) {
                Ok(s) => r matches Ok(sum) && s == (LiquidationState {
                    contract: self@,
                    liquidator: final(account)@,
                    target: final(liquidation_account)@,
                    repaid: repaid@,
                    taken: sum@,
                }),
                Err(e) => r matches Err(e2) && e2 == e,
            },
    {
        let ghost init = LiquidationState {
            contract: self@,
            liquidator: account@,
            target: liquidation_account@,
            repaid: repaid@,
            taken: 0,
        };
        let mut collateral_taken_sum = BigDecimal::zero();
        let mut i: usize = 0;
        while i < out_assets.len()
            invariant
                i <= out_assets@.len(),
                fold_results(init, out_assets@, collateral_leg(prices@), i as nat) == Ok::<
                    LiquidationState,
                    Error,
                >(
                    LiquidationState {
                        contract: self@,
                        liquidator: account@,
                        target: liquidation_account@,
                        repaid: repaid@,
                        taken: collateral_taken_sum@,
                    },
                ),
            decreases out_assets@.len() - i,
        {
            proof {
                lemma_fold_sticky(
                    init,
                    out_assets@,
                    collateral_leg(prices@),
                    (i + 1) as nat,
                    out_assets@.len(),
                );
            }
            collateral_taken_sum = self.take_one(
                account,
                prices,
                liquidation_account,
                &out_assets[i],
                repaid,
                &collateral_taken_sum,
            )?;
            i += 1;
        }
        Ok(collateral_taken_sum)
    }

    /// One step of the taking of non-fungible tokens: `nft_asset` goes from
    /// `liquidation_account` to `account`.  Returns the value taken so far.
    fn take_one_nft(
        &mut self,
        account_id: &AccountId,
        account: &mut Account,
        prices: &Prices,
        liquidation_account_id: &AccountId,
        liquidation_account: &mut Account,
        nft_asset: &NFTAsset,
        repaid: &BigDecimal,
        taken: &BigDecimal,
    ) -> (r: Result<BigDecimal, Error>)
        ensures
            match nft_taken(
                prices@,
                *account_id,
                liquidation_account_id@,
                LiquidationState {
                    contract: old(self)@,
                    liquidator: old(account)@,
                    target: old(liquidation_account)@,
                    repaid: repaid@,
                    taken: taken@,
                },
                *nft_asset,
            ) {
                Ok(s) => r matches Ok(sum) && s == (LiquidationState {
                    contract: final(self)@,
                    liquidator: final(account)@,
                    target: final(liquidation_account)@,
                    repaid: repaid@,
                    taken: sum@,
                }),
                Err(e) => r matches Err(e2) && e2 == e,
            },
    {
        proof {
            reveal(nft_taken);
        }
        let asset = self.internal_unwrap_asset(&nft_asset.nft_contract_id)?;
        let config_extra_decimals = asset.config.extra_decimals;
        match asset.get_owner_nft(&nft_asset.token_id, &asset) {
            Some(owner_id) => {
                if owner_id != *liquidation_account_id {
                    return Err(Error::NftNotOwner);
                }
            },
            None => {
                return Err(Error::NftNotFound);
            },
        }
        let value = Self::value_of(
            prices,
            &nft_asset.nft_contract_id,
            NFT_BALANCE,
            config_extra_decimals,
        )?;
        let sum = taken.checked_add(&value)?;
        let contract_nft_token_id = nft_contract_token_id(
            &nft_asset.nft_contract_id,
            &nft_asset.token_id,
        );
        account.add_affected_farm(FarmId::SuppliedNFT(nft_asset.nft_contract_id.clone()));
        liquidation_account.add_affected_farm(
            FarmId::SuppliedNFT(nft_asset.nft_contract_id.clone()),
        );
        match liquidation_account.internal_get_nft_asset(&contract_nft_token_id) {
            Some(held) => {
                account.internal_set_nft_asset(&contract_nft_token_id, held);
            },
            None => {
                account.nft_supplied.remove(&contract_nft_token_id);
            },
        }
        liquidation_account.nft_supplied.remove(&contract_nft_token_id);
        self.internal_set_nft_asset(
            &nft_asset.nft_contract_id,
            account_id.clone(),
            nft_asset.token_id.clone(),
            asset,
        );
        Ok(sum)
    }

    /// Moves the non-fungible tokens `out_nft_assets` from
    /// `liquidation_account` to `account`.  Returns the value taken.
    #[verifier::loop_isolation(false)]
    fn liquidation_take_nft(
        &mut self,
        account_id: &AccountId,
        account: &mut Account,
        prices: &Prices,
        liquidation_account_id: &AccountId,
        liquidation_account: &mut Account,
        out_nft_assets: &Vec<NFTAsset>,
        repaid: &BigDecimal,
    ) -> (r: Result<BigDecimal, Error>)
        ensures
            match fold_results(
                LiquidationState {
                    contract: old(self)@,
                    liquidator: old(account)@,
                    target: old(liquidation_account)@,
                    repaid: repaid@,
                    taken: 0,
                },
                out_nft_assets@,
                nft_leg(prices@, *account_id, liquidation_account_id@),
                out_nft_assets@.len(),
            ) {
                Ok(s) => r matches Ok(sum) && s == (LiquidationState {
                    contract: final(self)@,
                    liquidator: final(account)@,
                    target: final(liquidation_account)@,
                    repaid: repaid@,
                    taken: sum@,
                }),
                Err(e) => r matches Err(e2) && e2 == e,
            },
    {
        let ghost init = LiquidationState {
            contract: self@,
            liquidator: account@,
            target: liquidation_account@,
            repaid: repaid@,
            taken: 0,
        };
        let mut collateral_taken_sum = BigDecimal::zero();
        let mut i: usize = 0;
        while i < out_nft_assets.len()
            invariant
                i <= out_nft_assets@.len(),
                fold_results(
                    init,
                    out_nft_assets@,
                    nft_leg(prices@, *account_id, liquidation_account_id@),
                    i as nat,
                ) == Ok::<LiquidationState, Error>(
                    LiquidationState {
                        contract: self@,
                        liquidator: account@,
                        target: liquidation_account@,
                        repaid: repaid@,
                        taken: collateral_taken_sum@,
                    },
                ),
            decreases out_nft_assets@.len() - i,
        {
            proof {
                lemma_fold_sticky(
                    init,
                    out_nft_assets@,
                    nft_leg(prices@, *account_id, liquidation_account_id@),
                    (i + 1) as nat,
                    out_nft_assets@.len(),
                );
            }
            collateral_taken_sum = self.take_one_nft(
                account_id,
                account,
                prices,
                liquidation_account_id,
                liquidation_account,
                &out_nft_assets[i],
                repaid,
                &collateral_taken_sum,
            )?;
            i += 1;
        }
        Ok(collateral_taken_sum)
    }

    /// Reads the account to liquidate and its discount.
    fn liquidation_open(&self, prices: &Prices, liquidation_account_id: &AccountId, liquidator: Ghost<
        AccountModel,
    >) -> (r: Result<(Account, BigDecimal), Error>)
        ensures
            match self@.liquidation_opened(liquidator@, prices@, liquidation_account_id@) {
                Ok((s, max_discount)) => r matches Ok((target, discount)) && target@ == s.target
                    && discount@ == max_discount,
                Err(e) => r matches Err(e2) && e2 == e,
            },
    {
        let liquidation_account = self.internal_unwrap_account(liquidation_account_id)?;
        let max_discount = self.compute_max_discount(
            &liquidation_account,
            &liquidation_account,
            prices,
        )?;
        if max_discount.is_zero() {
            return Err(Error::NotAtRisk);
        }
        Ok((liquidation_account, max_discount))
    }

    /// Checks the end of a liquidation, and stores the account that was
    /// liquidated.
    fn liquidation_close(
        &mut self,
        prices: &Prices,
        liquidation_account_id: &AccountId,
        liquidation_account: Account,
        max_discount: &BigDecimal,
        collateral_taken_sum: &BigDecimal,
        borrowed_repaid_sum: &BigDecimal,
        liquidator: Ghost<AccountModel>,
    ) -> (r: Result<(), Error>)
        ensures
            match liquidation_closed(
                prices@,
                liquidation_account_id@,
                max_discount@,
                LiquidationState {
                    contract: old(self)@,
                    liquidator: liquidator@,
                    target: liquidation_account@,
                    repaid: borrowed_repaid_sum@,
                    taken: collateral_taken_sum@,
                },
            ) {
                Ok(s) => r is Ok && s.contract == final(self)@,
                Err(e) => r matches Err(e2) && e2 == e,
            },
    {
        proof {
            reveal(liquidation_closed);
        }
        let kept = BigDecimal::one().checked_sub(max_discount)?;
        let discounted_collateral_taken = collateral_taken_sum.checked_mul(&kept)?;
        if discounted_collateral_taken.gt(borrowed_repaid_sum) {
            return Err(Error::NotEnoughRepaid);
        }
        let new_max_discount = self.compute_max_discount(
            &liquidation_account,
            &liquidation_account,
            prices,
        )?;
        if new_max_discount.is_zero() {
            return Err(Error::LiquidationTooLarge);
        }
        if new_max_discount.ge(max_discount) {
            return Err(Error::HealthNotImproved);
        }
        self.internal_set_account(liquidation_account_id, liquidation_account);
        Ok(())
    }

    fn liquidate_unguarded(
        &mut self,
        account_id: &AccountId,
        account: &mut Account,
        prices: &Prices,
        liquidation_account_id: &AccountId,
        in_assets: &Vec<AssetAmount>,
        out_assets: &Vec<AssetAmount>,
    ) -> (r: Result<Event, Error>)
        ensures
            match old(self)@.liquidated(
                old(account)@,
                prices@,
                liquidation_account_id@,
                in_assets@,
                out_assets@,
            ) {
                Ok(s) => r matches Ok(event) && event@ == liquidate_event(
                    account_id@,
                    liquidation_account_id@,
                    s.taken,
                    s.repaid,
                ) && final(self)@ == s.contract && final(account)@ == s.liquidator,
                Err(e) => r matches Err(e2) && e2 == e,
            },
    {
        proof {
            reveal(liquidation_closed);
        }
        let (mut liquidation_account, max_discount) = self.liquidation_open(
            prices,
            liquidation_account_id,
            Ghost(account@),
        )?;
        let borrowed_repaid_sum = self.liquidation_repay(
            account,
            prices,
            &mut liquidation_account,
            in_assets,
        )?;
        let collateral_taken_sum = self.liquidation_take(
            account,
            prices,
            &mut liquidation_account,
            out_assets,
            &borrowed_repaid_sum,
        )?;
        self.liquidation_close(
            prices,
            liquidation_account_id,
            liquidation_account,
            &max_discount,
            &collateral_taken_sum,
            &borrowed_repaid_sum,
            Ghost(account@),
        )?;
        Ok(
            emit::liquidate(
                account_id,
                liquidation_account_id,
                &collateral_taken_sum,
                &borrowed_repaid_sum,
            ),
        )
    }

    /// Liquidates the account `liquidation_account_id` on behalf of
    /// `account`: repays `in_assets` of its debts out of the supplied
    /// positions of `account`, and moves `out_assets` of its supplied
    /// positions to `account`.
    ///
    /// The account must be at risk.  What is taken, less the discount at
    /// which the account stood, must not be worth more than what was repaid.
    /// And the account must be left at risk, at a smaller discount than
    /// before.  A refused liquidation leaves everything as it was.
    pub fn internal_liquidate(
        &mut self,
        account_id: &AccountId,
        account: &mut Account,
        prices: &Prices,
        liquidation_account_id: &AccountId,
        in_assets: &Vec<AssetAmount>,
        out_assets: &Vec<AssetAmount>,
    ) -> (r: Result<Event, Error>)
        ensures
            match old(self)@.liquidated(
                old(account)@,
                prices@,
                liquidation_account_id@,
                in_assets@,
                out_assets@,
            ) {
                Ok(s) => r matches Ok(event) && event@ == liquidate_event(
                    account_id@,
                    liquidation_account_id@,
                    s.taken,
                    s.repaid,
                ) && final(self)@ == s.contract && final(account)@ == s.liquidator,
                Err(e) => r matches Err(e2) && e2 == e && final(self)@ == old(self)@ && final(
                    account)@ == old(account)@,
            },
    {
        let saved_contract = self.clone();
        let saved_account = account.clone();
        let r = self.liquidate_unguarded(
            account_id,
            account,
            prices,
            liquidation_account_id,
            in_assets,
            out_assets,
        );
        if r.is_err() {
            *self = saved_contract;
            *account = saved_account;
        }
        r
    }

    fn liquidate_nft_unguarded(
        &mut self,
        account_id: &AccountId,
        account: &mut Account,
        prices: &Prices,
        liquidation_account_id: &AccountId,
        in_assets: &Vec<AssetAmount>,
        out_nft_assets: &Vec<NFTAsset>,
    ) -> (r: Result<Event, Error>)
        ensures
            match old(self)@.nft_liquidated(
                *account_id,
                old(account)@,
                prices@,
                liquidation_account_id@,
                in_assets@,
                out_nft_assets@,
            ) {
                Ok(s) => r matches Ok(event) && event@ == liquidate_event(
                    account_id@,
                    liquidation_account_id@,
                    s.taken,
                    s.repaid,
                ) && final(self)@ == s.contract && final(account)@ == s.liquidator,
                Err(e) => r matches Err(e2) && e2 == e,
            },
    {
        proof {
            reveal(liquidation_closed);
        }
        let (mut liquidation_account, max_discount) = self.liquidation_open(
            prices,
            liquidation_account_id,
            Ghost(account@),
        )?;
        let borrowed_repaid_sum = self.liquidation_repay(
            account,
            prices,
            &mut liquidation_account,
            in_assets,
        )?;
        let collateral_taken_sum = self.liquidation_take_nft(
            account_id,
            account,
            prices,
            liquidation_account_id,
            &mut liquidation_account,
            out_nft_assets,
            &borrowed_repaid_sum,
        )?;
        self.liquidation_close(
            prices,
            liquidation_account_id,
            liquidation_account,
            &max_discount,
            &collateral_taken_sum,
            &borrowed_repaid_sum,
            Ghost(account@),
        )?;
        Ok(
            emit::liquidate(
                account_id,
                liquidation_account_id,
                &collateral_taken_sum,
                &borrowed_repaid_sum,
            ),
        )
    }

    /// Liquidates the account `liquidation_account_id` on behalf of
    /// `account`, as `internal_liquidate` does, but takes the non-fungible
    /// tokens `out_nft_assets` for what is repaid.  Each must be in the
    /// pool of its asset under the name of the account that is liquidated.
    /// A refused liquidation leaves everything as it was.
    pub fn internal_liquidate_nft(
        &mut self,
        account_id: &AccountId,
        account: &mut Account,
        prices: &Prices,
        liquidation_account_id: &AccountId,
        in_assets: &Vec<AssetAmount>,
        out_nft_assets: &Vec<NFTAsset>,
    ) -> (r: Result<Event, Error>)
        ensures
            match old(self)@.nft_liquidated(
                *account_id,
                old(account)@,
                prices@,
                liquidation_account_id@,
                in_assets@,
                out_nft_assets@,
            ) {
                Ok(s) => r matches Ok(event) && event@ == liquidate_event(
                    account_id@,
                    liquidation_account_id@,
                    s.taken,
                    s.repaid,
                ) && final(self)@ == s.contract && final(account)@ == s.liquidator,
                Err(e) => r matches Err(e2) && e2 == e && final(self)@ == old(self)@ && final(
                    account)@ == old(account)@,
            },
    {
        let saved_contract = self.clone();
        let saved_account = account.clone();
        let r = self.liquidate_nft_unguarded(
            account_id,
            account,
            prices,
            liquidation_account_id,
            in_assets,
            out_nft_assets,
        );
        if r.is_err() {
            *self = saved_contract;
            *account = saved_account;
        }
        r
    }

    /// One step of the writing off: the supplied position at `i` goes to
    /// the reserve of its asset.  Returns the value written off so far.
    fn close_supplied_one(
        &mut self,
        prices: &Prices,
        liquidation_account: &mut Account,
        i: usize,
        sum: &BigDecimal,
    ) -> (r: Result<BigDecimal, Error>)
        requires
            i < old(liquidation_account)@.supplied.len(),
        ensures
            final(liquidation_account)@ == (AccountModel {
                affected_farms: final(liquidation_account)@.affected_farms,
                ..old(liquidation_account)@
            }),
            match supplied_closed(
                prices@,
                ForceCloseState {
                    contract: old(self)@,
                    sum: sum@,
                    farms: old(liquidation_account)@.affected_farms,
                },
                old(liquidation_account)@.supplied[i as int],
            ) {
                Ok(s) => r matches Ok(total) && s == (ForceCloseState {
                    contract: final(self)@,
                    sum: total@,
                    farms: final(liquidation_account)@.affected_farms,
                }),
                Err(e) => r matches Err(e2) && e2 == e,
            },
    {
        proof {
            reveal(supplied_closed);
        }
        let token_id = liquidation_account.supplied.key_at(i).clone();
        let shares = *liquidation_account.supplied.value_at(i);
        let mut asset = self.internal_unwrap_asset(&token_id)?;
        let amount = asset.supplied.shares_to_amount(shares, false)?;
        asset.reserved = match asset.reserved.checked_add(amount) {
            Some(x) => x,
            None => {
                return Err(Error::Overflow);
            },
        };
        asset.supplied.withdraw(shares, amount)?;
        let value = Self::value_of(prices, &token_id, amount, asset.config.extra_decimals)?;
        let total = sum.checked_add(&value)?;
        self.internal_set_asset(&token_id, asset)?;
        liquidation_account.add_affected_farm(FarmId::Supplied(token_id));
        Ok(total)
    }

    /// One step of the writing off: the debt at `i` is paid out of the
    /// reserve of its asset.  Returns the value written off so far.
    fn close_borrowed_one(
        &mut self,
        prices: &Prices,
        liquidation_account: &mut Account,
        i: usize,
        sum: &BigDecimal,
    ) -> (r: Result<BigDecimal, Error>)
        requires
            i < old(liquidation_account)@.borrowed.len(),
        ensures
            final(liquidation_account)@ == (AccountModel {
                affected_farms: final(liquidation_account)@.affected_farms,
                ..old(liquidation_account)@
            }),
            match borrowed_closed(
                prices@,
                ForceCloseState {
                    contract: old(self)@,
                    sum: sum@,
                    farms: old(liquidation_account)@.affected_farms,
                },
                old(liquidation_account)@.borrowed[i as int],
            ) {
                Ok(s) => r matches Ok(total) && s == (ForceCloseState {
                    contract: final(self)@,
                    sum: total@,
                    farms: final(liquidation_account)@.affected_farms,
                }),
                Err(e) => r matches Err(e2) && e2 == e,
            },
    {
        proof {
            reveal(borrowed_closed);
        }
        let token_id = liquidation_account.borrowed.key_at(i).clone();
        let shares = *liquidation_account.borrowed.value_at(i);
        let mut asset = self.internal_unwrap_asset(&token_id)?;
        let amount = asset.borrowed.shares_to_amount(shares, true)?;
        if asset.reserved < amount {
            return Err(Error::NotEnoughReserve);
        }
        asset.reserved = asset.reserved - amount;
        asset.borrowed.withdraw(shares, amount)?;
        let value = Self::value_of(prices, &token_id, amount, asset.config.extra_decimals)?;
        let total = sum.checked_add(&value)?;
        self.internal_set_asset(&token_id, asset)?;
        liquidation_account.add_affected_farm(FarmId::Borrowed(token_id));
        Ok(total)
    }

    /// Moves all supplied positions of `liquidation_account` to the
    /// reserves.  Returns their value.
    #[verifier::loop_isolation(false)]
    fn close_supplied(&mut self, prices: &Prices, liquidation_account: &mut Account) -> (r: Result<
        BigDecimal,
        Error,
    >)
        ensures
            final(liquidation_account)@ == (AccountModel {
                affected_farms: final(liquidation_account)@.affected_farms,
                ..old(liquidation_account)@
            }),
            match fold_results(
                ForceCloseState {
                    contract: old(self)@,
                    sum: 0,
                    farms: old(liquidation_account)@.affected_farms,
                },
                old(liquidation_account)@.supplied,
                supplied_close_step(prices@),
                old(liquidation_account)@.supplied.len(),
            ) {
                Ok(s) => r matches Ok(total) && s == (ForceCloseState {
                    contract: final(self)@,
                    sum: total@,
                    farms: final(liquidation_account)@.affected_farms,
                }),
                Err(e) => r matches Err(e2) && e2 == e,
            },
    {
        let ghost target = liquidation_account@;
        let ghost init = ForceCloseState { contract: self@, sum: 0, farms: target.affected_farms };
        let mut collateral_sum = BigDecimal::zero();
        let mut i: usize = 0;
        while i < liquidation_account.supplied.len()
            invariant
                i <= target.supplied.len(),
                liquidation_account@ == (AccountModel {
                    affected_farms: liquidation_account@.affected_farms,
                    ..target
                }),
                fold_results(init, target.supplied, supplied_close_step(prices@), i as nat) == Ok::<
                    ForceCloseState,
                    Error,
                >(
                    ForceCloseState {
                        contract: self@,
                        sum: collateral_sum@,
                        farms: liquidation_account@.affected_farms,
                    },
                ),
            decreases target.supplied.len() - i,
        {
            proof {
                lemma_fold_sticky(
                    init,
                    target.supplied,
                    supplied_close_step(prices@),
                    (i + 1) as nat,
                    target.supplied.len(),
                );
            }
            collateral_sum = self.close_supplied_one(
                prices,
                liquidation_account,
                i,
                &collateral_sum,
            )?;
            i += 1;
        }
        Ok(collateral_sum)
    }

    /// Pays all debts of `liquidation_account` out of the reserves.
    /// Returns their value.
    #[verifier::loop_isolation(false)]
    fn close_borrowed(&mut self, prices: &Prices, liquidation_account: &mut Account) -> (r: Result<
        BigDecimal,
        Error,
    >)
        ensures
            final(liquidation_account)@ == (AccountModel {
                affected_farms: final(liquidation_account)@.affected_farms,
                ..old(liquidation_account)@
            }),
            match fold_results(
                ForceCloseState {
                    contract: old(self)@,
                    sum: 0,
                    farms: old(liquidation_account)@.affected_farms,
                },
                old(liquidation_account)@.borrowed,
                borrowed_close_step(prices@),
                old(liquidation_account)@.borrowed.len(),
            ) {
                Ok(s) => r matches Ok(total) && s == (ForceCloseState {
                    contract: final(self)@,
                    sum: total@,
                    farms: final(liquidation_account)@.affected_farms,
                }),
                Err(e) => r matches Err(e2) && e2 == e,
            },
    {
        let ghost target = liquidation_account@;
        let ghost init = ForceCloseState { contract: self@, sum: 0, farms: target.affected_farms };
        let mut borrowed_sum = BigDecimal::zero();
        let mut i: usize = 0;
        while i < liquidation_account.borrowed.len()
            invariant
                i <= target.borrowed.len(),
                liquidation_account@ == (AccountModel {
                    affected_farms: liquidation_account@.affected_farms,
                    ..target
                }),
                fold_results(init, target.borrowed, borrowed_close_step(prices@), i as nat) == Ok::<
                    ForceCloseState,
                    Error,
                >(
                    ForceCloseState {
                        contract: self@,
                        sum: borrowed_sum@,
                        farms: liquidation_account@.affected_farms,
                    },
                ),
            decreases target.borrowed.len() - i,
        {
            proof {
                lemma_fold_sticky(
                    init,
                    target.borrowed,
                    borrowed_close_step(prices@),
                    (i + 1) as nat,
                    target.borrowed.len(),
                );
            }
            borrowed_sum = self.close_borrowed_one(prices, liquidation_account, i, &borrowed_sum)?;
            i += 1;
        }
        Ok(borrowed_sum)
    }

    fn force_close_unguarded(&mut self, prices: &Prices, liquidation_account_id: &AccountId) -> (r:
        Result<Event, Error>)
        ensures
            match old(self)@.force_closed(prices@, liquidation_account_id@) {
                Ok((c, collateral, borrowed)) => r matches Ok(event) && event@
                    == force_close_event(liquidation_account_id@, collateral, borrowed) && final(
                    self)@ == c,
                Err(e) => r matches Err(e2) && e2 == e,
            },
    {
        if !self.config.force_closing_enabled {
            return Err(Error::ForceCloseDisabled);
        }
        let mut liquidation_account = self.internal_unwrap_account(liquidation_account_id)?;
        let collateral_sum = self.close_supplied(prices, &mut liquidation_account)?;
        let borrowed_sum = self.close_borrowed(prices, &mut liquidation_account)?;
        if borrowed_sum.le(&collateral_sum) {
            return Err(Error::NotBadDebt);
        }
        liquidation_account.supplied = StrMap::new();
        liquidation_account.borrowed = StrMap::new();
        self.internal_set_account(liquidation_account_id, liquidation_account);
        Ok(emit::force_close(liquidation_account_id, &collateral_sum, &borrowed_sum))
    }

    /// Writes off the debts of the account `liquidation_account_id`: all
    /// that it had supplied goes to the reserves of its assets, and the
    /// reserves pay all that it had borrowed.
    ///
    /// Force closing must be enabled, each reserve must hold what it is to
    /// pay, and the debts must be worth more than the collateral.  A
    /// refused call leaves everything as it was.
    pub fn internal_force_close(&mut self, prices: &Prices, liquidation_account_id: &AccountId) -> (r:
        Result<Event, Error>)
        ensures
            match old(self)@.force_closed(prices@, liquidation_account_id@) {
                Ok((c, collateral, borrowed)) => r matches Ok(event) && event@
                    == force_close_event(liquidation_account_id@, collateral, borrowed) && final(
                    self)@ == c,
                Err(e) => r matches Err(e2) && e2 == e && final(self)@ == old(self)@,
            },
    {
        let saved_contract = self.clone();
        let r = self.force_close_unguarded(prices, liquidation_account_id);
        if r.is_err() {
            *self = saved_contract;
        }
        r
    }
}

/// The discount of an account depends on the assets and on the time of the
/// call, not on the accounts that the ledger holds.
pub proof fn lemma_discount_ignores_accounts(
    c1: ContractModel,
    c2: ContractModel,
    pre_account: AccountModel,
    account: AccountModel,
    prices: Entries<Price>,
)
    requires
        c1.assets == c2.assets,
        c1.block_timestamp == c2.block_timestamp,
    ensures
        spec_max_discount(c1, pre_account, account, prices) == spec_max_discount(
            c2,
            pre_account,
            account,
            prices,
        ),
{
    lemma_fold_same_steps(
        0nat,
        pre_account.supplied,
        collateral_step(c1, prices),
        collateral_step(c2, prices),
        pre_account.supplied.len(),
    );
    lemma_fold_same_steps(
        0nat,
        pre_account.nft_supplied,
        nft_collateral_step(c1, prices),
        nft_collateral_step(c2, prices),
        pre_account.nft_supplied.len(),
    );
    lemma_fold_same_steps(
        0nat,
        account.borrowed,
        borrowed_step(c1, prices),
        borrowed_step(c2, prices),
        account.borrowed.len(),
    );
}

/// A liquidation that succeeds improves the health of the account and
/// leaves it at risk: its discount afterwards is positive and smaller than
/// it was before.
pub proof fn lemma_liquidation_improves(
    c: ContractModel,
    liquidator: AccountModel,
    prices: Entries<Price>,
    target_id: Seq<char>,
    in_assets: Seq<AssetAmount>,
    out_assets: Seq<AssetAmount>,
)
    requires
        c.liquidated(liquidator, prices, target_id, in_assets, out_assets) is Ok,
    ensures
        ({
            let s = c.liquidated(liquidator, prices, target_id, in_assets, out_assets)->Ok_0;
            let before = c.account(target_id)->Ok_0;
            let was = spec_max_discount(c, before, before, prices);
            let is = spec_max_discount(s.contract, s.target, s.target, prices);
            c.account(target_id) is Ok && was is Ok && is is Ok && 0 < is->Ok_0 < was->Ok_0
        }),
{
    reveal(liquidation_closed);
    let opened = c.liquidation_opened(liquidator, prices, target_id)->Ok_0;
    let s1 = fold_results(opened.0, in_assets, repay_leg(prices), in_assets.len())->Ok_0;
    let s2 = fold_results(s1, out_assets, collateral_leg(prices), out_assets.len())->Ok_0;
    let s = liquidation_closed(prices, target_id, opened.1, s2)->Ok_0;
    lemma_discount_ignores_accounts(s2.contract, s.contract, s2.target, s2.target, prices);
}

/// A liquidation for non-fungible tokens that succeeds improves the health
/// of the account and leaves it at risk, just as one for supplied shares
/// does.
pub proof fn lemma_nft_liquidation_improves(
    c: ContractModel,
    liquidator_id: AccountId,
    liquidator: AccountModel,
    prices: Entries<Price>,
    target_id: Seq<char>,
    in_assets: Seq<AssetAmount>,
    out_nft_assets: Seq<NFTAsset>,
)
    requires
        c.nft_liquidated(liquidator_id, liquidator, prices, target_id, in_assets, out_nft_assets)
            is Ok,
    ensures
        ({
            let s = c.nft_liquidated(
                liquidator_id,
                liquidator,
                prices,
                target_id,
                in_assets,
                out_nft_assets,
            )->Ok_0;
            let before = c.account(target_id)->Ok_0;
            let was = spec_max_discount(c, before, before, prices);
            let is = spec_max_discount(s.contract, s.target, s.target, prices);
            c.account(target_id) is Ok && was is Ok && is is Ok && 0 < is->Ok_0 < was->Ok_0
        }),
{
    reveal(liquidation_closed);
    let opened = c.liquidation_opened(liquidator, prices, target_id)->Ok_0;
    let s1 = fold_results(opened.0, in_assets, repay_leg(prices), in_assets.len())->Ok_0;
    let s2 = fold_results(
        s1,
        out_nft_assets,
        nft_leg(prices, liquidator_id, target_id),
        out_nft_assets.len(),
    )->Ok_0;
    let s = liquidation_closed(prices, target_id, opened.1, s2)->Ok_0;
    lemma_discount_ignores_accounts(s2.contract, s.contract, s2.target, s2.target, prices);
}

/// A liquidation that would take collateral worth more, after the
/// discount, than what it repaid is refused for that reason.
pub proof fn lemma_liquidation_needs_repayment(
    prices: Entries<Price>,
    target_id: Seq<char>,
    max_discount: nat,
    s: LiquidationState,
)
    requires
        max_discount <= BIG_DIVISOR,
        spec_mul(s.taken, (BIG_DIVISOR - max_discount) as nat) matches Ok(discounted)
            && discounted > s.repaid,
    ensures
        liquidation_closed(prices, target_id, max_discount, s) == Err::<LiquidationState, Error>(
            Error::NotEnoughRepaid,
        ),
{
    reveal(liquidation_closed);
}

/// Whether the ledger of a liquidation under way is solvent.
pub open spec fn liquidation_solvent() -> spec_fn(LiquidationState) -> bool {
    |s: LiquidationState| s.contract.solvent()
}

/// Whether the ledger of a writing off under way is solvent.
pub open spec fn force_close_solvent() -> spec_fn(ForceCloseState) -> bool {
    |s: ForceCloseState| s.contract.solvent()
}

/// A liquidation keeps every asset solvent.
pub proof fn lemma_liquidation_keeps_solvent(
    c: ContractModel,
    liquidator: AccountModel,
    prices: Entries<Price>,
    target_id: Seq<char>,
    in_assets: Seq<AssetAmount>,
    out_assets: Seq<AssetAmount>,
)
    requires
        c.solvent(),
    ensures
        c.liquidated(liquidator, prices, target_id, in_assets, out_assets) matches Ok(s)
            ==> s.contract.solvent(),
{
    reveal(liquidation_closed);
    if c.liquidation_opened(liquidator, prices, target_id) is Ok {
        let opened = c.liquidation_opened(liquidator, prices, target_id)->Ok_0;
        lemma_repay_legs_keep_solvent(opened.0, prices, in_assets);
        let s1 = fold_results(opened.0, in_assets, repay_leg(prices), in_assets.len());
        if s1 is Ok {
            assert forall|s: LiquidationState, t: AssetAmount| #[trigger]
                liquidation_solvent()(s) implies (#[trigger] collateral_leg(prices)(s, t) matches Ok(
                s2,
            ) ==> liquidation_solvent()(s2)) by {
                reveal(collateral_taken);
            }
            lemma_fold_keeps(
                s1->Ok_0,
                out_assets,
                collateral_leg(prices),
                out_assets.len(),
                liquidation_solvent(),
            );
        }
    }
}

/// The repaying legs of a liquidation keep every asset solvent.
pub proof fn lemma_repay_legs_keep_solvent(
    s0: LiquidationState,
    prices: Entries<Price>,
    in_assets: Seq<AssetAmount>,
)
    requires
        s0.contract.solvent(),
    ensures
        fold_results(s0, in_assets, repay_leg(prices), in_assets.len()) matches Ok(s)
            ==> s.contract.solvent(),
{
    assert forall|s: LiquidationState, t: AssetAmount| #[trigger]
        liquidation_solvent()(s) implies (#[trigger] repay_leg(prices)(s, t) matches Ok(s2)
        ==> liquidation_solvent()(s2)) by {
        reveal(debt_repaid);
        let token_id = t.token_id@;
        let target = s.target.with_affected_farm(FarmKey::Borrowed(token_id));
        if s.liquidator.asset_or_error(token_id) is Ok {
            lemma_repay_keeps_solvent(
                s.contract,
                s.liquidator.asset_or_error(token_id)->Ok_0,
                target,
                t,
            );
        }
    }
    lemma_fold_keeps(s0, in_assets, repay_leg(prices), in_assets.len(), liquidation_solvent());
}

/// A liquidation for non-fungible tokens keeps every asset solvent.
pub proof fn lemma_nft_liquidation_keeps_solvent(
    c: ContractModel,
    liquidator_id: AccountId,
    liquidator: AccountModel,
    prices: Entries<Price>,
    target_id: Seq<char>,
    in_assets: Seq<AssetAmount>,
    out_nft_assets: Seq<NFTAsset>,
)
    requires
        c.solvent(),
    ensures
        c.nft_liquidated(liquidator_id, liquidator, prices, target_id, in_assets, out_nft_assets)
            matches Ok(s) ==> s.contract.solvent(),
{
    reveal(liquidation_closed);
    if c.liquidation_opened(liquidator, prices, target_id) is Ok {
        let opened = c.liquidation_opened(liquidator, prices, target_id)->Ok_0;
        lemma_repay_legs_keep_solvent(opened.0, prices, in_assets);
        let s1 = fold_results(opened.0, in_assets, repay_leg(prices), in_assets.len());
        if s1 is Ok {
            let step = nft_leg(prices, liquidator_id, target_id);
            assert forall|s: LiquidationState, t: NFTAsset| #[trigger]
                liquidation_solvent()(s) implies (#[trigger] step(s, t) matches Ok(s2)
                ==> liquidation_solvent()(s2)) by {
                reveal(nft_taken);
                lemma_asset_solvent(s.contract, t.nft_contract_id@);
                if s.contract.asset(t.nft_contract_id@) is Ok {
                    let asset = s.contract.asset(t.nft_contract_id@)->Ok_0;
                    lemma_upsert_solvent(
                        s.contract,
                        t.nft_contract_id@,
                        AssetModel {
                            nft_supplied: with_nft(
                                asset.nft_supplied,
                                liquidator_id,
                                t.token_id,
                                s.contract.block_timestamp,
                            ),
                            ..asset
                        },
                    );
                }
            }
            lemma_fold_keeps(
                s1->Ok_0,
                out_nft_assets,
                step,
                out_nft_assets.len(),
                liquidation_solvent(),
            );
        }
    }
}

/// A writing off keeps every asset solvent: what leaves a supplied pool
/// goes to the reserve, and what the reserve pays leaves the debt.
pub proof fn lemma_force_close_keeps_solvent(
    c: ContractModel,
    prices: Entries<Price>,
    target_id: Seq<char>,
)
    requires
        c.solvent(),
    ensures
        c.force_closed(prices, target_id) matches Ok((c2, collateral, borrowed)) ==> c2.solvent(),
{
    if c.account(target_id) is Ok {
        let target = c.account(target_id)->Ok_0;
        assert forall|s: ForceCloseState, t: (Seq<char>, Shares)| #[trigger]
            force_close_solvent()(s) implies (#[trigger] supplied_close_step(prices)(s, t) matches Ok(
            s2,
        ) ==> force_close_solvent()(s2)) by {
            reveal(supplied_closed);
            lemma_asset_solvent(s.contract, t.0);
            if supplied_closed(prices, s, t) is Ok {
                let asset = s.contract.asset(t.0)->Ok_0;
                let amount = asset.supplied.amount_for(t.1, false)->Ok_0;
                let pool = asset.supplied.after_withdraw(t.1, amount)->Ok_0;
                lemma_with_asset_solvent(
                    s.contract,
                    t.0,
                    AssetModel {
                        supplied: pool,
                        reserved: (asset.reserved + amount) as u128,
                        ..asset
                    },
                );
            }
        }
        assert forall|s: ForceCloseState, t: (Seq<char>, Shares)| #[trigger]
            force_close_solvent()(s) implies (#[trigger] borrowed_close_step(prices)(s, t) matches Ok(
            s2,
        ) ==> force_close_solvent()(s2)) by {
            reveal(borrowed_closed);
            lemma_asset_solvent(s.contract, t.0);
            if borrowed_closed(prices, s, t) is Ok {
                let asset = s.contract.asset(t.0)->Ok_0;
                let amount = asset.borrowed.amount_for(t.1, true)->Ok_0;
                let pool = asset.borrowed.after_withdraw(t.1, amount)->Ok_0;
                lemma_with_asset_solvent(
                    s.contract,
                    t.0,
                    AssetModel {
                        borrowed: pool,
                        reserved: (asset.reserved - amount) as u128,
                        ..asset
                    },
                );
            }
        }
        let init = ForceCloseState { contract: c, sum: 0, farms: target.affected_farms };
        lemma_fold_keeps(
            init,
            target.supplied,
            supplied_close_step(prices),
            target.supplied.len(),
            force_close_solvent(),
        );
        let s1 = fold_results(init, target.supplied, supplied_close_step(prices), target.supplied.len());
        if s1 is Ok {
            lemma_fold_keeps(
                ForceCloseState { contract: s1->Ok_0.contract, sum: 0, farms: s1->Ok_0.farms },
                target.borrowed,
                borrowed_close_step(prices),
                target.borrowed.len(),
                force_close_solvent(),
            );
        }
    }
}

/// Whether the marks of the liquidator cover what changed since it was
/// `before`.
pub open spec fn liquidator_covered(before: AccountModel) -> spec_fn(LiquidationState) -> bool {
    |s: LiquidationState| marks_cover(before, s.liquidator)
}

/// Marking a farm and setting the position that it rewards keeps the marks
/// covering.
proof fn lemma_marked_position_covered(
    account: AccountModel,
    token_id: Seq<char>,
    position: AccountAsset,
)
    requires
        distinct_keys(account.supplied),
        distinct_keys(account.borrowed),
    ensures
        marks_cover(
            account,
            account.with_affected_farm(FarmKey::Supplied(token_id)).with_asset(token_id, position),
        ),
{
    let farm = FarmKey::Supplied(token_id);
    let marked = account.with_affected_farm(farm);
    lemma_with_farm(account.affected_farms, farm, farm);
    lemma_marks_cover_steps(account, token_id, position, Shares(0), farm);
    lemma_marks_cover_steps(marked, token_id, position, Shares(0), farm);
    lemma_marks_cover_chain(account, marked, marked.with_asset(token_id, position));
}

/// The farms that a liquidation marks in the liquidator's account cover
/// every supplied position of it that the liquidation changed.
pub proof fn lemma_liquidation_marks_farms(
    c: ContractModel,
    liquidator: AccountModel,
    prices: Entries<Price>,
    target_id: Seq<char>,
    in_assets: Seq<AssetAmount>,
    out_assets: Seq<AssetAmount>,
)
    requires
        distinct_keys(liquidator.supplied),
        distinct_keys(liquidator.borrowed),
    ensures
        c.liquidated(liquidator, prices, target_id, in_assets, out_assets) matches Ok(s)
            ==> marks_cover(liquidator, s.liquidator),
{
    reveal(liquidation_closed);
    lemma_marks_cover_steps(
        liquidator,
        target_id,
        AccountAsset { shares: Shares(0) },
        Shares(0),
        FarmKey::Supplied(target_id),
    );
    if c.liquidation_opened(liquidator, prices, target_id) is Ok {
        let opened = c.liquidation_opened(liquidator, prices, target_id)->Ok_0;
        let good = liquidator_covered(liquidator);
        assert forall|s: LiquidationState, t: AssetAmount| #[trigger] good(s) implies (
        #[trigger] repay_leg(prices)(s, t) matches Ok(s2) ==> good(s2)) by {
            reveal(debt_repaid);
            if debt_repaid(prices, s, t) is Ok {
                let s2 = debt_repaid(prices, s, t)->Ok_0;
                let token_id = t.token_id@;
                let target = s.target.with_affected_farm(FarmKey::Borrowed(token_id));
                let position = s.liquidator.asset_or_error(token_id)->Ok_0;
                let position2 = s.contract.repaid(position, target, t)->Ok_0.1;
                lemma_marked_position_covered(s.liquidator, token_id, position2);
                lemma_marks_cover_chain(liquidator, s.liquidator, s2.liquidator);
            }
        }
        lemma_fold_keeps(opened.0, in_assets, repay_leg(prices), in_assets.len(), good);
        let s1 = fold_results(opened.0, in_assets, repay_leg(prices), in_assets.len());
        if s1 is Ok {
            assert forall|s: LiquidationState, t: AssetAmount| #[trigger] good(s) implies (
            #[trigger] collateral_leg(prices)(s, t) matches Ok(s2) ==> good(s2)) by {
                reveal(collateral_taken);
                if collateral_taken(prices, s, t) is Ok {
                    let s2 = collateral_taken(prices, s, t)->Ok_0;
                    let token_id = t.token_id@;
                    let target = s.target.with_affected_farm(FarmKey::Supplied(token_id));
                    let position2 = s.contract.supplied_moved(
                        s.liquidator.asset_or_default(token_id),
                        target,
                        t,
                    )->Ok_0.0;
                    lemma_marked_position_covered(s.liquidator, token_id, position2);
                    lemma_marks_cover_chain(liquidator, s.liquidator, s2.liquidator);
                }
            }
            lemma_fold_keeps(s1->Ok_0, out_assets, collateral_leg(prices), out_assets.len(), good);
        }
    }
}

/// The farms that a liquidation for non-fungible tokens marks in the
/// liquidator's account cover every supplied position of it that the
/// liquidation changed.
pub proof fn lemma_nft_liquidation_marks_farms(
    c: ContractModel,
    liquidator_id: AccountId,
    liquidator: AccountModel,
    prices: Entries<Price>,
    target_id: Seq<char>,
    in_assets: Seq<AssetAmount>,
    out_nft_assets: Seq<NFTAsset>,
)
    requires
        distinct_keys(liquidator.supplied),
        distinct_keys(liquidator.borrowed),
    ensures
        c.nft_liquidated(liquidator_id, liquidator, prices, target_id, in_assets, out_nft_assets)
            matches Ok(s) ==> marks_cover(liquidator, s.liquidator),
{
    reveal(liquidation_closed);
    lemma_marks_cover_steps(
        liquidator,
        target_id,
        AccountAsset { shares: Shares(0) },
        Shares(0),
        FarmKey::Supplied(target_id),
    );
    if c.liquidation_opened(liquidator, prices, target_id) is Ok {
        let opened = c.liquidation_opened(liquidator, prices, target_id)->Ok_0;
        let good = liquidator_covered(liquidator);
        assert forall|s: LiquidationState, t: AssetAmount| #[trigger] good(s) implies (
        #[trigger] repay_leg(prices)(s, t) matches Ok(s2) ==> good(s2)) by {
            reveal(debt_repaid);
            if debt_repaid(prices, s, t) is Ok {
                let s2 = debt_repaid(prices, s, t)->Ok_0;
                let token_id = t.token_id@;
                let target = s.target.with_affected_farm(FarmKey::Borrowed(token_id));
                let position = s.liquidator.asset_or_error(token_id)->Ok_0;
                let position2 = s.contract.repaid(position, target, t)->Ok_0.1;
                lemma_marked_position_covered(s.liquidator, token_id, position2);
                lemma_marks_cover_chain(liquidator, s.liquidator, s2.liquidator);
            }
        }
        lemma_fold_keeps(opened.0, in_assets, repay_leg(prices), in_assets.len(), good);
        let s1 = fold_results(opened.0, in_assets, repay_leg(prices), in_assets.len());
        if s1 is Ok {
            let step = nft_leg(prices, liquidator_id, target_id);
            assert forall|s: LiquidationState, t: NFTAsset| #[trigger] good(s) implies (
            #[trigger] step(s, t) matches Ok(s2) ==> good(s2)) by {
                reveal(nft_taken);
                if nft_taken(prices, liquidator_id, target_id, s, t) is Ok {
                    let s2 = nft_taken(prices, liquidator_id, target_id, s, t)->Ok_0;
                    let farm = FarmKey::SuppliedNFT(t.nft_contract_id@);
                    let key = spec_nft_key(t.nft_contract_id@, t.token_id@);
                    let marked = s.liquidator.with_affected_farm(farm);
                    lemma_marks_cover_steps(
                        s.liquidator,
                        key,
                        AccountAsset { shares: Shares(0) },
                        Shares(0),
                        farm,
                    );
                    lemma_marks_cover_steps(marked, key, AccountAsset { shares: Shares(0) }, Shares(0), farm);
                    lemma_marks_cover_chain(s.liquidator, marked, s2.liquidator);
                    lemma_marks_cover_chain(liquidator, s.liquidator, s2.liquidator);
                }
            }
            lemma_fold_keeps(s1->Ok_0, out_nft_assets, step, out_nft_assets.len(), good);
        }
    }
}

} // verus!

//! The execution of a batch of actions.
//!
//! The actions of a batch are applied in their order, each to the state
//! that the one before left.  When all are applied, the account must be
//! healthy and hold no more assets than the ledger allows.  A batch of
//! which any part is refused changes nothing.

use crate::account::{
    lemma_marks_cover_chain, lemma_marks_cover_steps, lemma_with_farm, marks_cover, Account,
    AccountModel,
};
use crate::account_asset::AccountAsset;
use crate::account_farm::{FarmId, FarmKey};
use crate::account_nft_asset::AccountNFTAsset;
use crate::actions::{
    lemma_asset_solvent, lemma_borrow_keeps_solvent, lemma_repay_keeps_solvent,
    lemma_upsert_solvent, lemma_withdraw_keeps_solvent, spec_max_discount, Action, AssetAmount,
    NFTAsset,
};
use crate::asset::{without_nft, AssetModel};
use crate::contract::{Contract, ContractModel};
use crate::error::Error;
use crate::events::emit;
use crate::events::{Event, EventView};
use crate::fold::{fold_results, lemma_fold_keeps, lemma_fold_sticky};
use crate::liquidation::{
    force_close_event, lemma_force_close_keeps_solvent, lemma_liquidation_keeps_solvent,
    lemma_liquidation_marks_farms, lemma_nft_liquidation_keeps_solvent,
    lemma_nft_liquidation_marks_farms, liquidate_event,
};
use crate::nft_pool::{holds_token, token_position};
use crate::pool::{Balance, Shares};
use crate::prices::{Price, Prices};
use crate::str_map::{distinct_keys, upsert, Entries};
use crate::utils::{
    nft_contract_token_id, spec_nft_key, AccountId, NFTContractId, NFTTokenId, TokenId,
};
use vstd::prelude::*;

verus! {

/// What the caller has to do after a batch was executed: the ledger has
/// done its bookkeeping, the transfers and the publishing are left.
#[derive(Debug)]
#[allow(inconsistent_fields)]
pub enum Effect {
    /// Send `amount` of the token to the account.
    FtTransfer { account_id: AccountId, token_id: TokenId, amount: Balance },
    /// Send the non-fungible token to the account.
    NftTransfer { account_id: AccountId, nft_contract_id: NFTContractId, token_id: NFTTokenId },
    /// Publish the event.
    Emit(Event),
}

/// An effect as the contracts see it.
#[allow(inconsistent_fields)]
pub enum EffectView {
    FtTransfer { account_id: Seq<char>, token_id: Seq<char>, amount: Balance },
    NftTransfer { account_id: Seq<char>, nft_contract_id: Seq<char>, token_id: Seq<char> },
    Emit(EventView),
}

impl View for Effect {
    type V = EffectView;

    open spec fn view(&self) -> EffectView {
        match *self {
            Effect::FtTransfer { account_id, token_id, amount } => EffectView::FtTransfer {
                account_id: account_id@,
                token_id: token_id@,
                amount,
            },
            Effect::NftTransfer { account_id, nft_contract_id, token_id } => EffectView::NftTransfer {
                account_id: account_id@,
                nft_contract_id: nft_contract_id@,
                token_id: token_id@,
            },
            Effect::Emit(event) => EffectView::Emit(event@),
        }
    }
}

/// The effects of a list as the contracts see them.
pub open spec fn effects_view(effects: Seq<Effect>) -> Seq<EffectView> {
    Seq::new(effects.len(), |i: int| effects[i]@)
}

/// What has to be checked when a batch is done.
#[derive(Clone, Copy, Debug, PartialEq, Eq, Structural)]
pub struct Checks {
    /// The account must be healthy on its own.
    pub need_risk_check: bool,
    /// The account's debts must be covered by the collateral that it had
    /// before the batch.
    pub need_risk_check_borrow: bool,
    /// The account must not hold too many assets.
    pub need_number_check: bool,
}

/// A batch under way.
pub struct ExecutionState {
    pub contract: ContractModel,
    pub account: AccountModel,
    pub checks: Checks,
    pub effects: Seq<EffectView>,
}

/// The view of an event about an amount of a token.
pub open spec fn amount_event(
    name: Seq<char>,
    account_id: Seq<char>,
    amount: Balance,
    token_id: Seq<char>,
) -> EventView {
    EventView {
        name,
        account_id,
        subject: token_id,
        nft_token_id: Seq::<char>::empty(),
        numbers: seq![amount as nat],
    }
}

/// The view of an event about a non-fungible token.
pub open spec fn nft_event(
    name: Seq<char>,
    account_id: Seq<char>,
    nft_contract_id: Seq<char>,
    token_id: Seq<char>,
) -> EventView {
    EventView {
        name,
        account_id,
        subject: nft_contract_id,
        nft_token_id: token_id,
        numbers: Seq::<nat>::empty(),
    }
}

impl ContractModel {
    /// The account after it supplied the non-fungible token `token_id` of
    /// the contract `nft_contract_id` at the time of the call.
    pub open spec fn nft_deposited(
        self,
        account: AccountModel,
        nft_contract_id: NFTContractId,
        token_id: NFTTokenId,
    ) -> AccountModel {
        account.with_nft_asset(
            spec_nft_key(nft_contract_id@, token_id@),
            AccountNFTAsset {
                nft_contract_id,
                nft_token_id: token_id,
                deposit_timestamp: self.block_timestamp,
            },
        )
    }

    /// The ledger and the account after the account `account_id` took its
    /// non-fungible token `nft` out.  The token must be in the pool of its
    /// asset under the account's name.
    pub open spec fn nft_withdrawn(
        self,
        account_id: Seq<char>,
        account: AccountModel,
        nft: NFTAsset,
    ) -> Result<(ContractModel, AccountModel), Error> {
        let contract_id = nft.nft_contract_id@;
        match self.asset(contract_id) {
            Err(e) => Err(e),
            Ok(asset) => if !asset.config.can_withdraw {
                Err(Error::WithdrawDisabled)
            } else if !holds_token(asset.nft_supplied, nft.token_id@) {
                Err(Error::NftNotFound)
            } else if asset.nft_supplied[token_position(asset.nft_supplied, nft.token_id@)].owner_id@
                != account_id {
                Err(Error::NftNotOwner)
            } else {
                Ok(
                    (
                        ContractModel {
                            assets: upsert(
                                self.assets,
                                contract_id,
                                AssetModel {
                                    nft_supplied: without_nft(asset.nft_supplied, nft.token_id@),
                                    ..asset
                                },
                            ),
                            ..self
                        },
                        account.without_nft_asset(spec_nft_key(contract_id, nft.token_id@)),
                    ),
                )
            },
        }
    }
}

/// The batch after the account `account_id` took out what `asset_amount`
/// asks for: the amount is to be sent to it.
pub open spec fn withdraw_applied(
    account_id: AccountId,
    s: ExecutionState,
    asset_amount: AssetAmount,
) -> Result<ExecutionState, Error> {
    let token_id = asset_amount.token_id@;
    match s.contract.withdrawn(
        s.account.with_affected_farm(FarmKey::Supplied(token_id)),
        asset_amount,
    ) {
        Err(e) => Err(e),
        Ok((c, a, amount)) => Ok(
            ExecutionState {
                contract: c,
                account: a,
                checks: Checks { need_risk_check: true, ..s.checks },
                effects: s.effects.push(
                    EffectView::FtTransfer { account_id: account_id@, token_id, amount },
                ).push(
                    EffectView::Emit(
                        amount_event("withdraw_started"@, account_id@, amount, token_id),
                    ),
                ),
            },
        ),
    }
}

/// The batch after the account `account_id` took its non-fungible token
/// `nft` out: the token is to be sent to it.
pub open spec fn withdraw_nft_applied(
    account_id: AccountId,
    s: ExecutionState,
    nft: NFTAsset,
) -> Result<ExecutionState, Error> {
    match s.contract.nft_withdrawn(
        account_id@,
        s.account.with_affected_farm(FarmKey::SuppliedNFT(nft.nft_contract_id@)),
        nft,
    ) {
        Err(e) => Err(e),
        Ok((c, a)) => Ok(
            ExecutionState {
                contract: c,
                account: a,
                checks: Checks { need_risk_check: true, ..s.checks },
                effects: s.effects.push(
                    EffectView::NftTransfer {
                        account_id: account_id@,
                        nft_contract_id: nft.nft_contract_id@,
                        token_id: nft.token_id@,
                    },
                ).push(
                    EffectView::Emit(
                        nft_event(
                            "withdraw_nft_started"@,
                            account_id@,
                            nft.nft_contract_id@,
                            nft.token_id@,
                        ),
                    ),
                ),
            },
        ),
    }
}

/// The batch after the account `account_id` borrowed what `asset_amount`
/// asks for.
pub open spec fn borrow_applied(
    account_id: AccountId,
    s: ExecutionState,
    asset_amount: AssetAmount,
) -> Result<ExecutionState, Error> {
    let token_id = asset_amount.token_id@;
    match s.contract.borrowed(
        s.account.with_affected_farm(FarmKey::Supplied(token_id)).with_affected_farm(
            FarmKey::Borrowed(token_id),
        ),
        asset_amount,
    ) {
        Err(e) => Err(e),
        Ok((c, a, amount)) => Ok(
            ExecutionState {
                contract: c,
                account: a,
                checks: Checks {
                    need_risk_check_borrow: true,
                    need_number_check: true,
                    ..s.checks
                },
                effects: s.effects.push(
                    EffectView::Emit(amount_event("borrow"@, account_id@, amount, token_id)),
                ),
            },
        ),
    }
}

/// The batch after the account `account_id` repaid what `asset_amount` asks
/// for of its own debt, out of its supplied position.
pub open spec fn repay_applied(
    account_id: AccountId,
    s: ExecutionState,
    asset_amount: AssetAmount,
) -> Result<ExecutionState, Error> {
    let token_id = asset_amount.token_id@;
    match s.account.asset_or_error(token_id) {
        Err(e) => Err(e),
        Ok(position) => match s.contract.repaid(
            position,
            s.account.with_affected_farm(FarmKey::Supplied(token_id)).with_affected_farm(
                FarmKey::Borrowed(token_id),
            ),
            asset_amount,
        ) {
            Err(e) => Err(e),
            Ok((c, position2, a, amount)) => Ok(
                ExecutionState {
                    contract: c,
                    account: a.with_asset(token_id, position2),
                    checks: s.checks,
                    effects: s.effects.push(
                        EffectView::Emit(amount_event("repay"@, account_id@, amount, token_id)),
                    ),
                },
            ),
        },
    }
}

/// The batch after the account `account_id` liquidated the account
/// `target_id`.  Nobody liquidates itself, and neither list may be empty.
pub open spec fn liquidate_applied(
    prices: Entries<Price>,
    account_id: AccountId,
    s: ExecutionState,
    target_id: Seq<char>,
    in_assets: Seq<AssetAmount>,
    out_assets: Seq<AssetAmount>,
) -> Result<ExecutionState, Error> {
    if account_id@ == target_id {
        Err(Error::SelfLiquidation)
    } else if in_assets.len() == 0 || out_assets.len() == 0 {
        Err(Error::EmptyAssets)
    } else {
        match s.contract.liquidated(s.account, prices, target_id, in_assets, out_assets) {
            Err(e) => Err(e),
            Ok(l) => Ok(
                ExecutionState {
                    contract: l.contract,
                    account: l.liquidator,
                    checks: s.checks,
                    effects: s.effects.push(
                        EffectView::Emit(liquidate_event(account_id@, target_id, l.taken, l.repaid)),
                    ),
                },
            ),
        }
    }
}

/// The batch after the account `account_id` liquidated the account
/// `target_id` for non-fungible tokens.
pub open spec fn liquidate_nft_applied(
    prices: Entries<Price>,
    account_id: AccountId,
    s: ExecutionState,
    target_id: Seq<char>,
    in_assets: Seq<AssetAmount>,
    out_nft_assets: Seq<NFTAsset>,
) -> Result<ExecutionState, Error> {
    if account_id@ == target_id {
        Err(Error::SelfLiquidation)
    } else if in_assets.len() == 0 || out_nft_assets.len() == 0 {
        Err(Error::EmptyAssets)
    } else {
        match s.contract.nft_liquidated(
            account_id,
            s.account,
            prices,
            target_id,
            in_assets,
            out_nft_assets,
        ) {
            Err(e) => Err(e),
            Ok(l) => Ok(
                ExecutionState {
                    contract: l.contract,
                    account: l.liquidator,
                    checks: s.checks,
                    effects: s.effects.push(
                        EffectView::Emit(liquidate_event(account_id@, target_id, l.taken, l.repaid)),
                    ),
                },
            ),
        }
    }
}

/// The batch after the debts of the account `target_id` were written off
/// at the request of the account `account_id`.
pub open spec fn force_close_applied(
    prices: Entries<Price>,
    account_id: AccountId,
    s: ExecutionState,
    target_id: Seq<char>,
) -> Result<ExecutionState, Error> {
    if account_id@ == target_id {
        Err(Error::SelfLiquidation)
    } else {
        match s.contract.force_closed(prices, target_id) {
            Err(e) => Err(e),
            Ok((c, collateral, borrowed)) => Ok(
                ExecutionState {
                    contract: c,
                    account: s.account,
                    checks: s.checks,
                    effects: s.effects.push(
                        EffectView::Emit(force_close_event(target_id, collateral, borrowed)),
                    ),
                },
            ),
        }
    }
}

/// The batch after one more action of the account `account_id`.
#[verifier::opaque]
pub open spec fn action_applied(
    prices: Entries<Price>,
    account_id: AccountId,
    s: ExecutionState,
    action: Action,
) -> Result<ExecutionState, Error> {
    match action {
        Action::Withdraw(asset_amount) => withdraw_applied(account_id, s, asset_amount),
        Action::WithdrawNFT(nft) => withdraw_nft_applied(account_id, s, nft),
        Action::Borrow(asset_amount) => borrow_applied(account_id, s, asset_amount),
        Action::Repay(asset_amount) => repay_applied(account_id, s, asset_amount),
        Action::Liquidate { account_id: target_id, in_assets, out_assets } => liquidate_applied(
            prices,
            account_id,
            s,
            target_id@,
            in_assets@,
            out_assets@,
        ),
        Action::LiquidateNFT {
            account_id: target_id,
            in_assets,
            out_nft_assets,
        } => liquidate_nft_applied(
            prices,
            account_id,
            s,
            target_id@,
            in_assets@,
            out_nft_assets@,
        ),
        Action::ForceClose { account_id: target_id } => force_close_applied(
            prices,
            account_id,
            s,
            target_id@,
        ),
    }
}

/// `action_applied` as the step of a fold.
pub open spec fn action_step(prices: Entries<Price>, account_id: AccountId) -> spec_fn(
    ExecutionState,
    Action,
) -> Result<ExecutionState, Error> {
    |s: ExecutionState, action: Action| action_applied(prices, account_id, s, action)
}

/// What a batch comes to when all its actions are applied: the account must
/// not hold more assets than allowed if it borrowed, its debts must be
/// covered by the collateral that it had before if it borrowed, and by the
/// collateral that it has now if it withdrew.
#[verifier::opaque]
pub open spec fn batch_checked(
    prices: Entries<Price>,
    pre_account: AccountModel,
    s: ExecutionState,
) -> Result<ExecutionState, Error> {
    if s.checks.need_number_check && s.account.supplied.len() + s.account.borrowed.len()
        > s.contract.config.max_num_assets {
        Err(Error::TooManyAssets)
    } else {
        match (if s.checks.need_risk_check_borrow {
            spec_max_discount(s.contract, pre_account, s.account, prices)
        } else {
            Ok(0)
        }) {
            Err(e) => Err(e),
            Ok(discount) => if discount != 0 {
                Err(Error::Unhealthy)
            } else {
                match (if s.checks.need_risk_check {
                    spec_max_discount(s.contract, s.account, s.account, prices)
                } else {
                    Ok(0)
                }) {
                    Err(e) => Err(e),
                    Ok(discount2) => if discount2 != 0 {
                        Err(Error::Unhealthy)
                    } else {
                        Ok(s)
                    },
                }
            },
        }
    }
}

impl ContractModel {
    /// The ledger and the account after the batch `actions` of the account
    /// `account_id`, with the effects that are left to the caller.
    pub open spec fn executed(
        self,
        account_id: AccountId,
        account: AccountModel,
        actions: Seq<Action>,
        prices: Entries<Price>,
    ) -> Result<ExecutionState, Error> {
        match fold_results(
            ExecutionState {
                contract: self,
                account,
                checks: Checks {
                    need_risk_check: false,
                    need_risk_check_borrow: false,
                    need_number_check: false,
                },
                effects: Seq::<EffectView>::empty(),
            },
            actions,
            action_step(prices, account_id),
            actions.len(),
        ) {
            Err(e) => Err(e),
            Ok(s) => batch_checked(prices, account, s),
        }
    }
}

/// Adds an effect to the list.
fn push_effect(effects: &mut Vec<Effect>, effect: Effect)
    ensures
        effects_view(final(effects)@) == effects_view(old(effects)@).push(effect@),
{
    let ghost before = effects@;
    effects.push(effect);
    assert(effects_view(effects@) =~= effects_view(before).push(effect@));
}

impl Contract {
    /// Supplies the non-fungible token `token_id` of the contract
    /// `nft_contract_id` to the account, at the time of the call.
    pub fn internal_nft_deposit(
        &self,
        account: &mut Account,
        nft_contract_id: &NFTContractId,
        token_id: &NFTTokenId,
    )
        ensures
            final(account)@ == self@.nft_deposited(old(account)@, *nft_contract_id, *token_id),
    {
        let nft_contract_token_id = nft_contract_token_id(nft_contract_id, token_id);
        let account_nft_asset = AccountNFTAsset {
            nft_contract_id: nft_contract_id.clone(),
            nft_token_id: token_id.clone(),
            deposit_timestamp: self.block_timestamp,
        };
        account.internal_set_nft_asset(&nft_contract_token_id, account_nft_asset)
    }

    /// Takes the non-fungible token `nft_asset` out of the account
    /// `account_id` and out of the pool of its asset.  The token must be in
    /// the pool under the account's name.  A refused call leaves everything
    /// as it was.
    pub fn internal_withdraw_nft(
        &mut self,
        account_id: &AccountId,
        account: &mut Account,
        nft_asset: &NFTAsset,
    ) -> (r: Result<(), Error>)
        ensures
            match old(self)@.nft_withdrawn(account_id@, old(account)@, *nft_asset) {
                Ok((c, a)) => r is Ok && final(self)@ == c && final(account)@ == a,
                Err(e) => r == Err::<(), Error>(e) && final(self)@ == old(self)@ && final(account)@
                    == old(account)@,
            },
    {
        let asset = self.internal_unwrap_asset(&nft_asset.nft_contract_id)?;
        if !asset.config.can_withdraw {
            return Err(Error::WithdrawDisabled);
        }
        match asset.get_owner_nft(&nft_asset.token_id, &asset) {
            Some(owner_id) => {
                if *account_id != owner_id {
                    return Err(Error::NftNotOwner);
                }
            },
            None => {
                return Err(Error::NftNotFound);
            },
        }
        let contract_nft_token_id = nft_contract_token_id(
            &nft_asset.nft_contract_id,
            &nft_asset.token_id,
        );
        account.nft_supplied.remove(&contract_nft_token_id);
        self.internal_remove_nft_asset(
            &nft_asset.nft_contract_id,
            nft_asset.token_id.clone(),
            asset,
        );
        Ok(())
    }

    fn apply_withdraw(
        &mut self,
        account_id: &AccountId,
        account: &mut Account,
        asset_amount: &AssetAmount,
        checks: &mut Checks,
        effects: &mut Vec<Effect>,
    ) -> (r: Result<(), Error>)
        ensures
            match withdraw_applied(
                *account_id,
                ExecutionState {
                    contract: old(self)@,
                    account: old(account)@,
                    checks: *old(checks),
                    effects: effects_view(old(effects)@),
                },
                *asset_amount,
            ) {
                Ok(s) => r is Ok && s == (ExecutionState {
                    contract: final(self)@,
                    account: final(account)@,
                    checks: *final(checks),
                    effects: effects_view(final(effects)@),
                }),
                Err(e) => r == Err::<(), Error>(e),
            },
    {
        proof {
            reveal_strlit("withdraw_started");
        }
        checks.need_risk_check = true;
        account.add_affected_farm(FarmId::Supplied(asset_amount.token_id.clone()));
        let amount = self.internal_withdraw(account, asset_amount)?;
        push_effect(
            effects,
            Effect::FtTransfer {
                account_id: account_id.clone(),
                token_id: asset_amount.token_id.clone(),
                amount,
            },
        );
        push_effect(
            effects,
            Effect::Emit(emit::withdraw_started(account_id, amount, &asset_amount.token_id)),
        );
        Ok(())
    }

    fn apply_withdraw_nft(
        &mut self,
        account_id: &AccountId,
        account: &mut Account,
        nft_asset: &NFTAsset,
        checks: &mut Checks,
        effects: &mut Vec<Effect>,
    ) -> (r: Result<(), Error>)
        ensures
            match withdraw_nft_applied(
                *account_id,
                ExecutionState {
                    contract: old(self)@,
                    account: old(account)@,
                    checks: *old(checks),
                    effects: effects_view(old(effects)@),
                },
                *nft_asset,
            ) {
                Ok(s) => r is Ok && s == (ExecutionState {
                    contract: final(self)@,
                    account: final(account)@,
                    checks: *final(checks),
                    effects: effects_view(final(effects)@),
                }),
                Err(e) => r == Err::<(), Error>(e),
            },
    {
        proof {
            reveal_strlit("withdraw_nft_started");
        }
        checks.need_risk_check = true;
        account.add_affected_farm(FarmId::SuppliedNFT(nft_asset.nft_contract_id.clone()));
        self.internal_withdraw_nft(account_id, account, nft_asset)?;
        push_effect(
            effects,
            Effect::NftTransfer {
                account_id: account_id.clone(),
                nft_contract_id: nft_asset.nft_contract_id.clone(),
                token_id: nft_asset.token_id.clone(),
            },
        );
        push_effect(
            effects,
            Effect::Emit(
                emit::withdraw_nft_started(
                    account_id,
                    &nft_asset.nft_contract_id,
                    &nft_asset.token_id,
                ),
            ),
        );
        Ok(())
    }

    fn apply_borrow(
        &mut self,
        account_id: &AccountId,
        account: &mut Account,
        asset_amount: &AssetAmount,
        checks: &mut Checks,
        effects: &mut Vec<Effect>,
    ) -> (r: Result<(), Error>)
        ensures
            match borrow_applied(
                *account_id,
                ExecutionState {
                    contract: old(self)@,
                    account: old(account)@,
                    checks: *old(checks),
                    effects: effects_view(old(effects)@),
                },
                *asset_amount,
            ) {
                Ok(s) => r is Ok && s == (ExecutionState {
                    contract: final(self)@,
                    account: final(account)@,
                    checks: *final(checks),
                    effects: effects_view(final(effects)@),
                }),
                Err(e) => r == Err::<(), Error>(e),
            },
    {
        proof {
            reveal_strlit("borrow");
        }
        checks.need_number_check = true;
        checks.need_risk_check_borrow = true;
        account.add_affected_farm(FarmId::Supplied(asset_amount.token_id.clone()));
        account.add_affected_farm(FarmId::Borrowed(asset_amount.token_id.clone()));
        let amount = self.internal_borrow(account, asset_amount)?;
        push_effect(effects, Effect::Emit(emit::borrow(account_id, amount, &asset_amount.token_id)));
        Ok(())
    }

    fn apply_repay(
        &mut self,
        account_id: &AccountId,
        account: &mut Account,
        asset_amount: &AssetAmount,
        checks: &mut Checks,
        effects: &mut Vec<Effect>,
    ) -> (r: Result<(), Error>)
        ensures
            match repay_applied(
                *account_id,
                ExecutionState {
                    contract: old(self)@,
                    account: old(account)@,
                    checks: *old(checks),
                    effects: effects_view(old(effects)@),
                },
                *asset_amount,
            ) {
                Ok(s) => r is Ok && s == (ExecutionState {
                    contract: final(self)@,
                    account: final(account)@,
                    checks: *final(checks),
                    effects: effects_view(final(effects)@),
                }),
                Err(e) => r == Err::<(), Error>(e),
            },
    {
        proof {
            reveal_strlit("repay");
        }
        let mut account_asset = account.internal_unwrap_asset(&asset_amount.token_id)?;
        account.add_affected_farm(FarmId::Supplied(asset_amount.token_id.clone()));
        account.add_affected_farm(FarmId::Borrowed(asset_amount.token_id.clone()));
        let amount = self.internal_repay(&mut account_asset, account, asset_amount)?;
        push_effect(effects, Effect::Emit(emit::repay(account_id, amount, &asset_amount.token_id)));
        account.internal_set_asset(&asset_amount.token_id, account_asset);
        Ok(())
    }

    fn apply_liquidate(
        &mut self,
        account_id: &AccountId,
        account: &mut Account,
        prices: &Prices,
        liquidation_account_id: &AccountId,
        in_assets: &Vec<AssetAmount>,
        out_assets: &Vec<AssetAmount>,
        checks: &mut Checks,
        effects: &mut Vec<Effect>,
    ) -> (r: Result<(), Error>)
        ensures
            match liquidate_applied(
                prices@,
                *account_id,
                ExecutionState {
                    contract: old(self)@,
                    account: old(account)@,
                    checks: *old(checks),
                    effects: effects_view(old(effects)@),
                },
                liquidation_account_id@,
                in_assets@,
                out_assets@,
            ) {
                Ok(s) => r is Ok && s == (ExecutionState {
                    contract: final(self)@,
                    account: final(account)@,
                    checks: *final(checks),
                    effects: effects_view(final(effects)@),
                }),
                Err(e) => r == Err::<(), Error>(e),
            },
    {
        if *account_id == *liquidation_account_id {
            return Err(Error::SelfLiquidation);
        }
        if in_assets.len() == 0 || out_assets.len() == 0 {
            return Err(Error::EmptyAssets);
        }
        let event = self.internal_liquidate(
            account_id,
            account,
            prices,
            liquidation_account_id,
            in_assets,
            out_assets,
        )?;
        push_effect(effects, Effect::Emit(event));
        Ok(())
    }

    fn apply_liquidate_nft(
        &mut self,
        account_id: &AccountId,
        account: &mut Account,
        prices: &Prices,
        liquidation_account_id: &AccountId,
        in_assets: &Vec<AssetAmount>,
        out_nft_assets: &Vec<NFTAsset>,
        checks: &mut Checks,
        effects: &mut Vec<Effect>,
    ) -> (r: Result<(), Error>)
        ensures
            match liquidate_nft_applied(
                prices@,
                *account_id,
                ExecutionState {
                    contract: old(self)@,
                    account: old(account)@,
                    checks: *old(checks),
                    effects: effects_view(old(effects)@),
                },
                liquidation_account_id@,
                in_assets@,
                out_nft_assets@,
            ) {
                Ok(s) => r is Ok && s == (ExecutionState {
                    contract: final(self)@,
                    account: final(account)@,
                    checks: *final(checks),
                    effects: effects_view(final(effects)@),
                }),
                Err(e) => r == Err::<(), Error>(e),
            },
    {
        if *account_id == *liquidation_account_id {
            return Err(Error::SelfLiquidation);
        }
        if in_assets.len() == 0 || out_nft_assets.len() == 0 {
            return Err(Error::EmptyAssets);
        }
        let event = self.internal_liquidate_nft(
            account_id,
            account,
            prices,
            liquidation_account_id,
            in_assets,
            out_nft_assets,
        )?;
        push_effect(effects, Effect::Emit(event));
        Ok(())
    }

    fn apply_force_close(
        &mut self,
        account_id: &AccountId,
        account: &mut Account,
        prices: &Prices,
        liquidation_account_id: &AccountId,
        checks: &mut Checks,
        effects: &mut Vec<Effect>,
    ) -> (r: Result<(), Error>)
        ensures
            match force_close_applied(
                prices@,
                *account_id,
                ExecutionState {
                    contract: old(self)@,
                    account: old(account)@,
                    checks: *old(checks),
                    effects: effects_view(old(effects)@),
                },
                liquidation_account_id@,
            ) {
                Ok(s) => r is Ok && s == (ExecutionState {
                    contract: final(self)@,
                    account: final(account)@,
                    checks: *final(checks),
                    effects: effects_view(final(effects)@),
                }),
                Err(e) => r == Err::<(), Error>(e),
            },
    {
        if *account_id == *liquidation_account_id {
            return Err(Error::SelfLiquidation);
        }
        let event = self.internal_force_close(prices, liquidation_account_id)?;
        push_effect(effects, Effect::Emit(event));
        Ok(())
    }

    /// Applies one action of a batch.
    fn apply_action(
        &mut self,
        account_id: &AccountId,
        account: &mut Account,
        action: &Action,
        prices: &Prices,
        checks: &mut Checks,
        effects: &mut Vec<Effect>,
    ) -> (r: Result<(), Error>)
        ensures
            match action_applied(
                prices@,
                *account_id,
                ExecutionState {
                    contract: old(self)@,
                    account: old(account)@,
                    checks: *old(checks),
                    effects: effects_view(old(effects)@),
                },
                *action,
            ) {
                Ok(s) => r is Ok && s == (ExecutionState {
                    contract: final(self)@,
                    account: final(account)@,
                    checks: *final(checks),
                    effects: effects_view(final(effects)@),
                }),
                Err(e) => r == Err::<(), Error>(e),
            },
    {
        proof {
            reveal(action_applied);
        }
        match action {
            Action::Withdraw(asset_amount) => self.apply_withdraw(
                account_id,
                account,
                asset_amount,
                checks,
                effects,
            ),
            Action::WithdrawNFT(nft_asset) => self.apply_withdraw_nft(
                account_id,
                account,
                nft_asset,
                checks,
                effects,
            ),
            Action::Borrow(asset_amount) => self.apply_borrow(
                account_id,
                account,
                asset_amount,
                checks,
                effects,
            ),
            Action::Repay(asset_amount) => self.apply_repay(
                account_id,
                account,
                asset_amount,
                checks,
                effects,
            ),
            Action::Liquidate {
                account_id: liquidation_account_id,
                in_assets,
                out_assets,
            } => self.apply_liquidate(
                account_id,
                account,
                prices,
                liquidation_account_id,
                in_assets,
                out_assets,
                checks,
                effects,
            ),
            Action::LiquidateNFT {
                account_id: liquidation_account_id,
                in_assets,
                out_nft_assets,
            } => self.apply_liquidate_nft(
                account_id,
                account,
                prices,
                liquidation_account_id,
                in_assets,
                out_nft_assets,
                checks,
                effects,
            ),
            Action::ForceClose { account_id: liquidation_account_id } => self.apply_force_close(
                account_id,
                account,
                prices,
                liquidation_account_id,
                checks,
                effects,
            ),
        }
    }

    /// Checks the account when all actions of a batch are applied.
    fn check_batch(
        &self,
        pre_account: &Account,
        account: &Account,
        prices: &Prices,
        checks: &Checks,
        effects: Ghost<Seq<EffectView>>,
    ) -> (r: Result<(), Error>)
        ensures
            match batch_checked(
                prices@,
                pre_account@,
                ExecutionState {
                    contract: self@,
                    account: account@,
                    checks: *checks,
                    effects: effects@,
                },
            ) {
                Ok(s) => r is Ok && s == (ExecutionState {
                    contract: self@,
                    account: account@,
                    checks: *checks,
                    effects: effects@,
                }),
                Err(e) => r == Err::<(), Error>(e),
            },
    {
        proof {
            reveal(batch_checked);
        }
        if checks.need_number_check {
            let held: u128 = account.supplied.len() as u128 + account.borrowed.len() as u128;
            if held > self.config.max_num_assets as u128 {
                return Err(Error::TooManyAssets);
            }
        }
        if checks.need_risk_check_borrow {
            let discount = self.compute_max_discount(pre_account, account, prices)?;
            if !discount.is_zero() {
                return Err(Error::Unhealthy);
            }
        }
        if checks.need_risk_check {
            let discount = self.compute_max_discount(account, account, prices)?;
            if !discount.is_zero() {
                return Err(Error::Unhealthy);
            }
        }
        Ok(())
    }

    #[verifier::loop_isolation(false)]
    fn execute_unguarded(
        &mut self,
        account_id: &AccountId,
        account: &mut Account,
        actions: &Vec<Action>,
        prices: &Prices,
    ) -> (r: Result<Vec<Effect>, Error>)
        ensures
            match old(self)@.executed(*account_id, old(account)@, actions@, prices@) {
                Ok(s) => r matches Ok(effects) && effects_view(effects@) == s.effects && final(
                    self)@ == s.contract && final(account)@ == s.account,
                Err(e) => r matches Err(e2) && e2 == e,
            },
    {
        let pre_account = account.clone();
        let mut checks = Checks {
            need_risk_check: false,
            need_risk_check_borrow: false,
            need_number_check: false,
        };
        let mut effects: Vec<Effect> = Vec::new();
        let ghost init = ExecutionState {
            contract: self@,
            account: account@,
            checks,
            effects: Seq::<EffectView>::empty(),
        };
        assert(effects_view(effects@) =~= Seq::<EffectView>::empty());
        let mut i: usize = 0;
        while i < actions.len()
            invariant
                i <= actions@.len(),
                fold_results(init, actions@, action_step(prices@, *account_id), i as nat) == Ok::<
                    ExecutionState,
                    Error,
                >(
                    ExecutionState {
                        contract: self@,
                        account: account@,
                        checks,
                        effects: effects_view(effects@),
                    },
                ),
            decreases actions@.len() - i,
        {
            proof {
                lemma_fold_sticky(
                    init,
                    actions@,
                    action_step(prices@, *account_id),
                    (i + 1) as nat,
                    actions@.len(),
                );
            }
            self.apply_action(account_id, account, &actions[i], prices, &mut checks, &mut effects)?;
            i += 1;
        }
        self.check_batch(&pre_account, account, prices, &checks, Ghost(effects_view(effects@)))?;
        Ok(effects)
    }

    /// Executes the batch `actions` on behalf of the account `account_id`,
    /// whose state is `account`, at the prices `prices`.  Returns what is
    /// left to the caller: the transfers to make and the events to publish,
    /// in their order.
    ///
    /// The farms that the batch touched are marked in the accounts; their
    /// settling is left to the caller.  A batch that is refused leaves the
    /// ledger and the account as they were.
    pub fn internal_execute(
        &mut self,
        account_id: &AccountId,
        account: &mut Account,
        actions: Vec<Action>,
        prices: Prices,
    ) -> (r: Result<Vec<Effect>, Error>)
        ensures
            match old(self)@.executed(*account_id, old(account)@, actions@, prices@) {
                Ok(s) => r matches Ok(effects) && effects_view(effects@) == s.effects && final(
                    self)@ == s.contract && final(account)@ == s.account,
                Err(e) => r matches Err(e2) && e2 == e && final(self)@ == old(self)@ && final(
                    account)@ == old(account)@,
            },
    {
        let saved_contract = self.clone();
        let saved_account = account.clone();
        let r = self.execute_unguarded(account_id, account, &actions, &prices);
        if r.is_err() {
            *self = saved_contract;
            *account = saved_account;
        }
        r
    }
}

/// Whether the ledger of a batch under way is solvent.
pub open spec fn batch_solvent() -> spec_fn(ExecutionState) -> bool {
    |s: ExecutionState| s.contract.solvent()
}

/// An action that succeeds keeps every asset solvent.
pub proof fn lemma_action_keeps_solvent(
    prices: Entries<Price>,
    account_id: AccountId,
    s: ExecutionState,
    action: Action,
)
    requires
        s.contract.solvent(),
    ensures
        action_applied(prices, account_id, s, action) matches Ok(s2) ==> s2.contract.solvent(),
{
    reveal(action_applied);
    match action {
        Action::Withdraw(asset_amount) => {
            lemma_withdraw_keeps_solvent(
                s.contract,
                s.account.with_affected_farm(FarmKey::Supplied(asset_amount.token_id@)),
                asset_amount,
            );
        },
        Action::WithdrawNFT(nft) => {
            lemma_asset_solvent(s.contract, nft.nft_contract_id@);
            if s.contract.asset(nft.nft_contract_id@) is Ok {
                let asset = s.contract.asset(nft.nft_contract_id@)->Ok_0;
                lemma_upsert_solvent(
                    s.contract,
                    nft.nft_contract_id@,
                    AssetModel {
                        nft_supplied: without_nft(asset.nft_supplied, nft.token_id@),
                        ..asset
                    },
                );
            }
        },
        Action::Borrow(asset_amount) => {
            let token_id = asset_amount.token_id@;
            lemma_borrow_keeps_solvent(
                s.contract,
                s.account.with_affected_farm(FarmKey::Supplied(token_id)).with_affected_farm(
                    FarmKey::Borrowed(token_id),
                ),
                asset_amount,
            );
        },
        Action::Repay(asset_amount) => {
            let token_id = asset_amount.token_id@;
            if s.account.asset_or_error(token_id) is Ok {
                lemma_repay_keeps_solvent(
                    s.contract,
                    s.account.asset_or_error(token_id)->Ok_0,
                    s.account.with_affected_farm(FarmKey::Supplied(token_id)).with_affected_farm(
                        FarmKey::Borrowed(token_id),
                    ),
                    asset_amount,
                );
            }
        },
        Action::Liquidate { account_id: target_id, in_assets, out_assets } => {
            lemma_liquidation_keeps_solvent(
                s.contract,
                s.account,
                prices,
                target_id@,
                in_assets@,
                out_assets@,
            );
        },
        Action::LiquidateNFT { account_id: target_id, in_assets, out_nft_assets } => {
            lemma_nft_liquidation_keeps_solvent(
                s.contract,
                account_id,
                s.account,
                prices,
                target_id@,
                in_assets@,
                out_nft_assets@,
            );
        },
        Action::ForceClose { account_id: target_id } => {
            lemma_force_close_keeps_solvent(s.contract, prices, target_id@);
        },
    }
}

/// Solvency is kept by every batch: a ledger whose assets all hold at least
/// what they have lent out is left so by every batch that succeeds, and by
/// every part of it.
pub proof fn lemma_batch_keeps_solvent(
    c: ContractModel,
    account_id: AccountId,
    account: AccountModel,
    actions: Seq<Action>,
    prices: Entries<Price>,
    n: nat,
)
    requires
        c.solvent(),
    ensures
        c.executed(account_id, account, actions, prices) matches Ok(s) ==> s.contract.solvent(),
        fold_results(
            ExecutionState {
                contract: c,
                account,
                checks: Checks {
                    need_risk_check: false,
                    need_risk_check_borrow: false,
                    need_number_check: false,
                },
                effects: Seq::<EffectView>::empty(),
            },
            actions,
            action_step(prices, account_id),
            n,
        ) matches Ok(s) ==> s.contract.solvent(),
{
    reveal(batch_checked);
    let step = action_step(prices, account_id);
    assert forall|s: ExecutionState, t: Action| #[trigger] batch_solvent()(s) implies (
    #[trigger] step(s, t) matches Ok(s2) ==> batch_solvent()(s2)) by {
        lemma_action_keeps_solvent(prices, account_id, s, t);
    }
    let init = ExecutionState {
        contract: c,
        account,
        checks: Checks {
            need_risk_check: false,
            need_risk_check_borrow: false,
            need_number_check: false,
        },
        effects: Seq::<EffectView>::empty(),
    };
    lemma_fold_keeps(init, actions, step, actions.len(), batch_solvent());
    lemma_fold_keeps(init, actions, step, n, batch_solvent());
}

/// Whether the marks of the account of a batch cover what changed since it
/// was `before`.
pub open spec fn account_covered(before: AccountModel) -> spec_fn(ExecutionState) -> bool {
    |s: ExecutionState| marks_cover(before, s.account)
}

/// An action that succeeds marks the farm of every supplied or borrowed
/// position of the account that it changes.
pub proof fn lemma_action_marks_farms(
    prices: Entries<Price>,
    account_id: AccountId,
    s: ExecutionState,
    action: Action,
)
    requires
        distinct_keys(s.account.supplied),
        distinct_keys(s.account.borrowed),
    ensures
        action_applied(prices, account_id, s, action) matches Ok(s2) ==> marks_cover(
            s.account,
            s2.account,
        ),
{
    reveal(action_applied);
    let none = AccountAsset { shares: Shares(0) };
    lemma_marks_cover_steps(
        s.account,
        account_id@,
        none,
        Shares(0),
        FarmKey::Supplied(account_id@),
    );
    if action_applied(prices, account_id, s, action) is Ok {
        let s2 = action_applied(prices, account_id, s, action)->Ok_0;
        match action {
            Action::Withdraw(asset_amount) => {
                let token_id = asset_amount.token_id@;
                let farm = FarmKey::Supplied(token_id);
                let marked = s.account.with_affected_farm(farm);
                lemma_with_farm(s.account.affected_farms, farm, farm);
                let position = marked.asset_or_error(token_id)->Ok_0;
                let resolved = crate::actions::spec_asset_amount_to_shares(
                    s.contract.asset(token_id)->Ok_0.supplied,
                    position.shares,
                    asset_amount.amount,
                    asset_amount.max_amount,
                    false,
                )->Ok_0;
                let position2 = position.after_withdraw(resolved.0)->Ok_0;
                lemma_marks_cover_steps(s.account, token_id, position2, Shares(0), farm);
                lemma_marks_cover_steps(marked, token_id, position2, Shares(0), farm);
                lemma_marks_cover_chain(s.account, marked, s2.account);
            },
            Action::WithdrawNFT(token) => {
                let farm = FarmKey::SuppliedNFT(token.nft_contract_id@);
                let key = spec_nft_key(token.nft_contract_id@, token.token_id@);
                let marked = s.account.with_affected_farm(farm);
                lemma_marks_cover_steps(s.account, key, none, Shares(0), farm);
                lemma_marks_cover_steps(marked, key, none, Shares(0), farm);
                lemma_marks_cover_chain(s.account, marked, s2.account);
            },
            Action::Borrow(asset_amount) => {
                let token_id = asset_amount.token_id@;
                let supplied = FarmKey::Supplied(token_id);
                let borrowed = FarmKey::Borrowed(token_id);
                let first = s.account.with_affected_farm(supplied);
                let marked = first.with_affected_farm(borrowed);
                lemma_with_farm(s.account.affected_farms, supplied, supplied);
                lemma_with_farm(first.affected_farms, borrowed, borrowed);
                lemma_with_farm(first.affected_farms, borrowed, supplied);
                lemma_marks_cover_steps(s.account, token_id, none, Shares(0), supplied);
                lemma_marks_cover_steps(first, token_id, none, Shares(0), borrowed);
                lemma_marks_cover_chain(s.account, first, marked);
                let asset = s.contract.asset(token_id)->Ok_0;
                let available = asset.available()->Ok_0;
                let max_borrow_shares = asset.borrowed.shares_for(available, false)->Ok_0;
                let resolved = crate::actions::spec_asset_amount_to_shares(
                    asset.borrowed,
                    max_borrow_shares,
                    asset_amount.amount,
                    asset_amount.max_amount,
                    true,
                )->Ok_0;
                let supplied_shares = asset.supplied.shares_for(resolved.1, false)->Ok_0;
                let more = marked.borrowed_more(token_id, resolved.0)->Ok_0;
                let position = marked.asset_or_default(token_id).after_deposit(supplied_shares)->Ok_0;
                lemma_marks_cover_steps(marked, token_id, position, resolved.0, borrowed);
                lemma_marks_cover_steps(more, token_id, position, resolved.0, borrowed);
                lemma_marks_cover_chain(marked, more, s2.account);
                lemma_marks_cover_chain(s.account, marked, s2.account);
            },
            Action::Repay(asset_amount) => {
                let token_id = asset_amount.token_id@;
                let supplied = FarmKey::Supplied(token_id);
                let borrowed = FarmKey::Borrowed(token_id);
                let first = s.account.with_affected_farm(supplied);
                let marked = first.with_affected_farm(borrowed);
                lemma_with_farm(s.account.affected_farms, supplied, supplied);
                lemma_with_farm(first.affected_farms, borrowed, borrowed);
                lemma_with_farm(first.affected_farms, borrowed, supplied);
                lemma_marks_cover_steps(s.account, token_id, none, Shares(0), supplied);
                lemma_marks_cover_steps(first, token_id, none, Shares(0), borrowed);
                lemma_marks_cover_chain(s.account, first, marked);
                let position = s.account.asset_or_error(token_id)->Ok_0;
                let repaid = s.contract.repaid(position, marked, asset_amount)->Ok_0;
                let asset = s.contract.asset(token_id)->Ok_0;
                let available_borrowed = marked.borrowed_or_error(token_id)->Ok_0;
                let parts = ContractModel::repayment(asset, position, available_borrowed, asset_amount)->Ok_0;
                let less = marked.borrowed_less(token_id, parts.1)->Ok_0;
                lemma_marks_cover_steps(marked, token_id, repaid.1, parts.1, borrowed);
                lemma_marks_cover_steps(less, token_id, repaid.1, parts.1, borrowed);
                lemma_marks_cover_chain(marked, less, s2.account);
                lemma_marks_cover_chain(s.account, marked, s2.account);
            },
            Action::Liquidate { account_id: target_id, in_assets, out_assets } => {
                lemma_liquidation_marks_farms(
                    s.contract,
                    s.account,
                    prices,
                    target_id@,
                    in_assets@,
                    out_assets@);
            },
            Action::LiquidateNFT { account_id: target_id, in_assets, out_nft_assets } => {
                lemma_nft_liquidation_marks_farms(
                    s.contract,
                    account_id,
                    s.account,
                    prices,
                    target_id@,
                    in_assets@,
                    out_nft_assets@);
            },
            Action::ForceClose { account_id: target_id } => {},
        }
    }
}

/// The marking of the farms is complete: after a batch that succeeds, the
/// farm of every token whose supplied or borrowed shares the batch changed
/// in the account is marked in it, and so is every farm that was marked
/// before.
pub proof fn lemma_batch_marks_farms(
    c: ContractModel,
    account_id: AccountId,
    account: AccountModel,
    actions: Seq<Action>,
    prices: Entries<Price>,
)
    requires
        distinct_keys(account.supplied),
        distinct_keys(account.borrowed),
    ensures
        c.executed(account_id, account, actions, prices) matches Ok(s) ==> marks_cover(
            account,
            s.account,
        ),
{
    reveal(batch_checked);
    let step = action_step(prices, account_id);
    let good = account_covered(account);
    lemma_marks_cover_steps(
        account,
        account_id@,
        AccountAsset { shares: Shares(0) },
        Shares(0),
        FarmKey::Supplied(account_id@));
    assert forall|s: ExecutionState, t: Action| #[trigger] good(s) implies (#[trigger] step(
        s,
        t,
    ) matches Ok(s2) ==> good(s2)) by {
        lemma_action_marks_farms(prices, account_id, s, t);
        if step(s, t) is Ok {
            lemma_marks_cover_chain(account, s.account, step(s, t)->Ok_0.account);
        }
    }
    let init = ExecutionState {
        contract: c,
        account,
        checks: Checks {
            need_risk_check: false,
            need_risk_check_borrow: false,
            need_number_check: false,
        },
        effects: Seq::<EffectView>::empty(),
    };
    lemma_fold_keeps(init, actions, step, actions.len(), good);
}

} // verus!

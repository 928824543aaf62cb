//! The requests that an account can make of the ledger, and what each does.
//!
//! Every function here states its result over the views of the ledger and
//! of the accounts: the state that a call leaves, and what it returns, are
//! those that its specification gives for the state that the call found.  A
//! call that is refused leaves everything as it was.

use crate::account::{Account, AccountModel};
use crate::account_asset::AccountAsset;
use crate::account_nft_asset::AccountNFTAsset;
use crate::asset::AssetModel;
use crate::big_decimal::{
    div_round, mantissa_of, spec_add, spec_div, spec_div_ratio, spec_mul_ratio, BigDecimal,
    BIG_DIVISOR,
};
use crate::contract::{Contract, ContractModel};
use crate::error::Error;
use crate::fold::{fold_results, lemma_fold_sticky};
use crate::pool::{Balance, Pool, Shares};
use crate::prices::{price_of, spec_balance_value, Price, Prices};
use crate::str_map::{has_key, position, upsert, Entries};
use crate::utils::{AccountId, NFTContractId, NFTTokenId, TokenId};
use vstd::arithmetic::div_mod::{lemma_div_is_ordered, lemma_fundamental_div_mod, lemma_mod_bound};
use vstd::prelude::*;

verus! {

/// A non-fungible token counts as this balance of its contract's asset: one
/// token with 24 decimals.
pub const NFT_BALANCE: Balance = 1_000_000_000_000_000_000_000_000;

/// A token and how much of it a request is about.
#[derive(Debug)]
pub struct AssetAmount {
    pub token_id: TokenId,
    /// The amount to use.  Without it, as much as possible is used.
    pub amount: Option<u128>,
    /// The most to use where `amount` is not given.  Without it, everything
    /// that is there is used.
    pub max_amount: Option<u128>,
}

/// A non-fungible token and its contract.
#[derive(Debug)]
pub struct NFTAsset {
    pub nft_contract_id: NFTContractId,
    pub token_id: NFTTokenId,
}

/// One request of a batch.
#[derive(Debug)]
pub enum Action {
    Withdraw(AssetAmount),
    WithdrawNFT(NFTAsset),
    Borrow(AssetAmount),
    Repay(AssetAmount),
    Liquidate { account_id: AccountId, in_assets: Vec<AssetAmount>, out_assets: Vec<AssetAmount> },
    LiquidateNFT {
        account_id: AccountId,
        in_assets: Vec<AssetAmount>,
        out_nft_assets: Vec<NFTAsset>,
    },
    /// Writes the debts of the account off against the reserves, where they
    /// are worth more than its collateral.
    ForceClose { account_id: AccountId },
}

/// The smaller of two numbers.
pub open spec fn least(a: u128, b: u128) -> u128 {
    if a <= b {
        a
    } else {
        b
    }
}

/// The shares and the amount that a request comes to in `pool`, for an
/// account that can use up to `available_shares`.
///
/// A given amount is used as it is, and turned into shares.  Else the shares
/// are the available ones, or those of the maximal amount if they are fewer,
/// and the amount is what they stand for, though not more than the maximal
/// amount.  The shares are rounded up unless `inverse_round_direction`, and
/// the amount the other way.  Neither may be zero.
pub open spec fn spec_asset_amount_to_shares(
    pool: Pool,
    available_shares: Shares,
    amount: Option<u128>,
    max_amount: Option<u128>,
    inverse_round_direction: bool,
) -> Result<(Shares, Balance), Error> {
    let resolved: Result<(Shares, Balance), Error> = match amount {
        Some(a) => match pool.shares_for(a, !inverse_round_direction) {
            Err(e) => Err(e),
            Ok(s) => Ok((s, a)),
        },
        None => match max_amount {
            Some(m) => match pool.shares_for(m, !inverse_round_direction) {
                Err(e) => Err(e),
                Ok(ms) => {
                    let shares = Shares(least(available_shares.0, ms.0));
                    match pool.amount_for(shares, inverse_round_direction) {
                        Err(e) => Err(e),
                        Ok(am) => Ok((shares, least(am, m))),
                    }
                },
            },
            None => match pool.amount_for(available_shares, inverse_round_direction) {
                Err(e) => Err(e),
                Ok(am) => Ok((available_shares, am)),
            },
        },
    };
    match resolved {
        Err(e) => Err(e),
        Ok((s, a)) => if s.0 == 0 {
            Err(Error::ZeroShares)
        } else if a == 0 {
            Err(Error::ZeroAmount)
        } else {
            Ok((s, a))
        },
    }
}

/// The shares and the amount that `asset_amount` comes to in `pool`.
pub fn asset_amount_to_shares(
    pool: &Pool,
    available_shares: Shares,
    asset_amount: &AssetAmount,
    inverse_round_direction: bool,
) -> (r: Result<(Shares, Balance), Error>)
    ensures
        r == spec_asset_amount_to_shares(
            *pool,
            available_shares,
            asset_amount.amount,
            asset_amount.max_amount,
            inverse_round_direction,
        ),
{
    let (shares, amount) = match asset_amount.amount {
        Some(amount) => (pool.amount_to_shares(amount, !inverse_round_direction)?, amount),
        None => match asset_amount.max_amount {
            Some(max_amount) => {
                let max_shares = pool.amount_to_shares(max_amount, !inverse_round_direction)?;
                let shares = Shares(
                    if available_shares.0 <= max_shares.0 {
                        available_shares.0
                    } else {
                        max_shares.0
                    },
                );
                let amount = pool.shares_to_amount(shares, inverse_round_direction)?;
                (
                    shares,
                    if amount <= max_amount {
                        amount
                    } else {
                        max_amount
                    },
                )
            },
            None => (
                available_shares,
                pool.shares_to_amount(available_shares, inverse_round_direction)?,
            ),
        },
    };
    if shares.0 == 0 {
        return Err(Error::ZeroShares);
    }
    if amount == 0 {
        return Err(Error::ZeroAmount);
    }
    Ok((shares, amount))
}

/// The value of `amount` of the token `token_id` at the prices of the call.
pub open spec fn spec_value(
    prices: Entries<Price>,
    token_id: Seq<char>,
    amount: Balance,
    extra_decimals: u8,
) -> Result<nat, Error> {
    match price_of(prices, token_id) {
        Err(e) => Err(e),
        Ok(price) => spec_balance_value(amount as nat, price, extra_decimals),
    }
}

/// The collateral sum with one supplied position added: the amount that its
/// shares stand for, at its price, weighted by the asset's volatility
/// ratio.
pub open spec fn collateral_added(
    c: ContractModel,
    prices: Entries<Price>,
    sum: nat,
    entry: (Seq<char>, Shares),
) -> Result<nat, Error> {
    match c.asset(entry.0) {
        Err(e) => Err(e),
        Ok(asset) => match asset.supplied.amount_for(entry.1, false) {
            Err(e) => Err(e),
            Ok(balance) => match spec_value(prices, entry.0, balance, asset.config.extra_decimals) {
                Err(e) => Err(e),
                Ok(value) => match spec_mul_ratio(value, asset.config.volatility_ratio as nat) {
                    Err(e) => Err(e),
                    Ok(weighted) => spec_add(sum, weighted),
                },
            },
        },
    }
}

/// The collateral sum with one non-fungible token added: one unit of its
/// contract's asset, at its price, weighted by the asset's volatility ratio.
pub open spec fn nft_collateral_added(
    c: ContractModel,
    prices: Entries<Price>,
    sum: nat,
    entry: (Seq<char>, AccountNFTAsset),
) -> Result<nat, Error> {
    match c.asset(entry.1.nft_contract_id@) {
        Err(e) => Err(e),
        Ok(asset) => match spec_value(
            prices,
            entry.1.nft_contract_id@,
            NFT_BALANCE,
            asset.config.extra_decimals,
        ) {
            Err(e) => Err(e),
            Ok(value) => match spec_mul_ratio(value, asset.config.volatility_ratio as nat) {
                Err(e) => Err(e),
                Ok(weighted) => spec_add(sum, weighted),
            },
        },
    }
}

/// The debt sum with one borrowed position added: the amount that its shares
/// stand for, rounded up, at its price, divided by the asset's volatility
/// ratio.
pub open spec fn borrowed_added(
    c: ContractModel,
    prices: Entries<Price>,
    sum: nat,
    entry: (Seq<char>, Shares),
) -> Result<nat, Error> {
    match c.asset(entry.0) {
        Err(e) => Err(e),
        Ok(asset) => match asset.borrowed.amount_for(entry.1, true) {
            Err(e) => Err(e),
            Ok(balance) => match spec_value(prices, entry.0, balance, asset.config.extra_decimals) {
                Err(e) => Err(e),
                Ok(value) => match spec_div_ratio(value, asset.config.volatility_ratio as nat) {
                    Err(e) => Err(e),
                    Ok(weighted) => spec_add(sum, weighted),
                },
            },
        },
    }
}

/// `collateral_added` as the step of a fold.
pub open spec fn collateral_step(c: ContractModel, prices: Entries<Price>) -> spec_fn(
    nat,
    (Seq<char>, Shares),
) -> Result<nat, Error> {
    |sum: nat, entry: (Seq<char>, Shares)| collateral_added(c, prices, sum, entry)
}

/// `nft_collateral_added` as the step of a fold.
pub open spec fn nft_collateral_step(c: ContractModel, prices: Entries<Price>) -> spec_fn(
    nat,
    (Seq<char>, AccountNFTAsset),
) -> Result<nat, Error> {
    |sum: nat, entry: (Seq<char>, AccountNFTAsset)| nft_collateral_added(c, prices, sum, entry)
}

/// `borrowed_added` as the step of a fold.
pub open spec fn borrowed_step(c: ContractModel, prices: Entries<Price>) -> spec_fn(
    nat,
    (Seq<char>, Shares),
) -> Result<nat, Error> {
    |sum: nat, entry: (Seq<char>, Shares)| borrowed_added(c, prices, sum, entry)
}

/// The discount at which the collateral of an account can be had, from the
/// weighted value of its debts and that of its collateral: none while the
/// collateral covers the debts, else half of the part of the debts that it
/// does not cover.
pub open spec fn spec_discount(borrowed: nat, collateral: nat) -> Result<nat, Error> {
    if borrowed <= collateral {
        Ok(0)
    } else {
        match spec_div((borrowed - collateral) as nat, borrowed) {
            Err(e) => Err(e),
            Ok(shortfall) => spec_div(shortfall, 2 * (BIG_DIVISOR as nat)),
        }
    }
}

/// The greatest discount at which the collateral of `pre_account` can be
/// had for the debts of `account`.
pub open spec fn spec_max_discount(
    c: ContractModel,
    pre_account: AccountModel,
    account: AccountModel,
    prices: Entries<Price>,
) -> Result<nat, Error> {
    if account.borrowed.len() == 0 {
        Ok(0)
    } else {
        match fold_results(
            0nat,
            pre_account.supplied,
            collateral_step(c, prices),
            pre_account.supplied.len(),
        ) {
            Err(e) => Err(e),
            Ok(collateral) => match fold_results(
                0nat,
                pre_account.nft_supplied,
                nft_collateral_step(c, prices),
                pre_account.nft_supplied.len(),
            ) {
                Err(e) => Err(e),
                Ok(nft_collateral) => match fold_results(
                    0nat,
                    account.borrowed,
                    borrowed_step(c, prices),
                    account.borrowed.len(),
                ) {
                    Err(e) => Err(e),
                    Ok(borrowed) => match spec_add(collateral, nft_collateral) {
                        Err(e) => Err(e),
                        Ok(total) => spec_discount(borrowed, total),
                    },
                },
            },
        }
    }
}

impl ContractModel {
    /// The ledger and the account after the account supplied `amount` of
    /// `token_id`, and the shares that it got.
    pub open spec fn deposited(self, account: AccountModel, token_id: Seq<char>, amount: Balance) -> Result<
        (ContractModel, AccountModel, Shares),
        Error,
    > {
        match self.asset(token_id) {
            Err(e) => Err(e),
            Ok(asset) => match asset.supplied.shares_for(amount, false) {
                Err(e) => Err(e),
                Ok(shares) => match account.asset_or_default(token_id).after_deposit(shares) {
                    Err(e) => Err(e),
                    Ok(position) => match asset.supplied.after_deposit(shares, amount) {
                        Err(e) => Err(e),
                        Ok(pool) => match self.with_asset(
                            token_id,
                            AssetModel { supplied: pool, ..asset },
                        ) {
                            Err(e) => Err(e),
                            Ok(c) => Ok((c, account.with_asset(token_id, position), shares)),
                        },
                    },
                },
            },
        }
    }

    /// The ledger and the account after the account took out what
    /// `asset_amount` asks for, and the amount taken.
    pub open spec fn withdrawn(self, account: AccountModel, asset_amount: AssetAmount) -> Result<
        (ContractModel, AccountModel, Balance),
        Error,
    > {
        let token_id = asset_amount.token_id@;
        match self.asset(token_id) {
            Err(e) => Err(e),
            Ok(asset) => if !asset.config.can_withdraw {
                Err(Error::WithdrawDisabled)
            } else {
                match account.asset_or_error(token_id) {
                    Err(e) => Err(e),
                    Ok(position) => match spec_asset_amount_to_shares(
                        asset.supplied,
                        position.shares,
                        asset_amount.amount,
                        asset_amount.max_amount,
                        false,
                    ) {
                        Err(e) => Err(e),
                        Ok((shares, amount)) => match asset.available() {
                            Err(e) => Err(e),
                            Ok(available) => if amount > available {
                                Err(Error::ExceededAvailable)
                            } else {
                                match position.after_withdraw(shares) {
                                    Err(e) => Err(e),
                                    Ok(position2) => match asset.supplied.after_withdraw(
                                        shares,
                                        amount,
                                    ) {
                                        Err(e) => Err(e),
                                        Ok(pool) => match self.with_asset(
                                            token_id,
                                            AssetModel { supplied: pool, ..asset },
                                        ) {
                                            Err(e) => Err(e),
                                            Ok(c) => Ok(
                                                (
                                                    c,
                                                    account.with_asset(token_id, position2),
                                                    amount,
                                                ),
                                            ),
                                        },
                                    },
                                }
                            },
                        },
                    },
                }
            },
        }
    }

    /// The ledger and the account after the account borrowed what
    /// `asset_amount` asks for, and the amount borrowed.  What is borrowed
    /// stays in the ledger: the account gets it as a supplied position.
    pub open spec fn borrowed(self, account: AccountModel, asset_amount: AssetAmount) -> Result<
        (ContractModel, AccountModel, Balance),
        Error,
    > {
        let token_id = asset_amount.token_id@;
        match self.asset(token_id) {
            Err(e) => Err(e),
            Ok(asset) => if !asset.config.can_borrow {
                Err(Error::BorrowDisabled)
            } else {
                match asset.available() {
                    Err(e) => Err(e),
                    Ok(available) => match asset.borrowed.shares_for(available, false) {
                        Err(e) => Err(e),
                        Ok(max_borrow_shares) => match spec_asset_amount_to_shares(
                            asset.borrowed,
                            max_borrow_shares,
                            asset_amount.amount,
                            asset_amount.max_amount,
                            true,
                        ) {
                            Err(e) => Err(e),
                            Ok((borrowed_shares, amount)) => if amount > available {
                                Err(Error::ExceededAvailable)
                            } else {
                                match asset.supplied.shares_for(amount, false) {
                                    Err(e) => Err(e),
                                    Ok(supplied_shares) => match asset.borrowed.after_deposit(
                                        borrowed_shares,
                                        amount,
                                    ) {
                                        Err(e) => Err(e),
                                        Ok(borrowed_pool) => match asset.supplied.after_deposit(
                                            supplied_shares,
                                            amount,
                                        ) {
                                            Err(e) => Err(e),
                                            Ok(supplied_pool) => match account.borrowed_more(
                                                token_id,
                                                borrowed_shares,
                                            ) {
                                                Err(e) => Err(e),
                                                Ok(account2) => match account.asset_or_default(
                                                    token_id,
                                                ).after_deposit(supplied_shares) {
                                                    Err(e) => Err(e),
                                                    Ok(position) => match self.with_asset(
                                                        token_id,
                                                        AssetModel {
                                                            supplied: supplied_pool,
                                                            borrowed: borrowed_pool,
                                                            ..asset
                                                        },
                                                    ) {
                                                        Err(e) => Err(e),
                                                        Ok(c) => Ok(
                                                            (
                                                                c,
                                                                account2.with_asset(
                                                                    token_id,
                                                                    position,
                                                                ),
                                                                amount,
                                                            ),
                                                        ),
                                                    },
                                                },
                                            },
                                        },
                                    },
                                }
                            },
                        },
                    },
                }
            },
        }
    }

    /// What is repaid of the debt of `debtor`, out of a supplied position:
    /// the supplied shares given up, the borrowed shares redeemed and the
    /// amount.  A position that does not hold what the request comes to is
    /// used up, and the repayment is what it affords.
    pub open spec fn repayment(
        asset: AssetModel,
        position: AccountAsset,
        available_borrowed: Shares,
        asset_amount: AssetAmount,
    ) -> Result<(Shares, Shares, Balance), Error> {
        match spec_asset_amount_to_shares(
            asset.borrowed,
            available_borrowed,
            asset_amount.amount,
            asset_amount.max_amount,
            true,
        ) {
            Err(e) => Err(e),
            Ok((borrowed_shares, amount)) => match asset.supplied.shares_for(amount, true) {
                Err(e) => Err(e),
                Ok(supplied_shares) => if supplied_shares.0 > position.shares.0 {
                    match asset.supplied.amount_for(position.shares, false) {
                        Err(e) => Err(e),
                        Ok(afforded) => if asset_amount.amount matches Some(fixed) && afforded
                            < fixed {
                            Err(Error::NotEnoughSuppliedBalance)
                        } else if afforded == 0 {
                            Err(Error::ZeroAmount)
                        } else {
                            match asset.borrowed.shares_for(afforded, false) {
                                Err(e) => Err(e),
                                Ok(redeemed) => if redeemed.0 == 0 {
                                    Err(Error::ZeroShares)
                                } else if redeemed.0 > available_borrowed.0 {
                                    Err(Error::NotEnoughBorrowed)
                                } else {
                                    Ok((position.shares, redeemed, afforded))
                                },
                            }
                        },
                    }
                } else {
                    Ok((supplied_shares, borrowed_shares, amount))
                },
            },
        }
    }

    /// The ledger, the payer's supplied position and the debtor after the
    /// payer repaid what `asset_amount` asks for of the debtor's debt, and
    /// the amount repaid.
    pub open spec fn repaid(
        self,
        position: AccountAsset,
        debtor: AccountModel,
        asset_amount: AssetAmount,
    ) -> Result<(ContractModel, AccountAsset, AccountModel, Balance), Error> {
        let token_id = asset_amount.token_id@;
        match self.asset(token_id) {
            Err(e) => Err(e),
            Ok(asset) => match debtor.borrowed_or_error(token_id) {
                Err(e) => Err(e),
                Ok(available_borrowed) => match Self::repayment(
                    asset,
                    position,
                    available_borrowed,
                    asset_amount,
                ) {
                    Err(e) => Err(e),
                    Ok((supplied_shares, borrowed_shares, amount)) => match asset.supplied.after_withdraw(
                        supplied_shares,
                        amount,
                    ) {
                        Err(e) => Err(e),
                        Ok(supplied_pool) => match asset.borrowed.after_withdraw(
                            borrowed_shares,
                            amount,
                        ) {
                            Err(e) => Err(e),
                            Ok(borrowed_pool) => match debtor.borrowed_less(
                                token_id,
                                borrowed_shares,
                            ) {
                                Err(e) => Err(e),
                                Ok(debtor2) => match position.after_withdraw(supplied_shares) {
                                    Err(e) => Err(e),
                                    Ok(position2) => match self.with_asset(
                                        token_id,
                                        AssetModel {
                                            supplied: supplied_pool,
                                            borrowed: borrowed_pool,
                                            ..asset
                                        },
                                    ) {
                                        Err(e) => Err(e),
                                        Ok(c) => Ok((c, position2, debtor2, amount)),
                                    },
                                },
                            },
                        },
                    },
                },
            },
        }
    }

    /// The taker's supplied position and the giver after the giver's
    /// supplied shares that `asset_amount` asks for went over to the taker,
    /// and the amount that they stand for.
    pub open spec fn supplied_moved(
        self,
        position: AccountAsset,
        giver: AccountModel,
        asset_amount: AssetAmount,
    ) -> Result<(AccountAsset, AccountModel, Balance), Error> {
        let token_id = asset_amount.token_id@;
        match self.asset(token_id) {
            Err(e) => Err(e),
            Ok(asset) => match giver.asset_or_error(token_id) {
                Err(e) => Err(e),
                Ok(given) => match spec_asset_amount_to_shares(
                    asset.supplied,
                    given.shares,
                    asset_amount.amount,
                    asset_amount.max_amount,
                    false,
                ) {
                    Err(e) => Err(e),
                    Ok((shares, amount)) => match given.after_withdraw(shares) {
                        Err(e) => Err(e),
                        Ok(given2) => match position.after_deposit(shares) {
                            Err(e) => Err(e),
                            Ok(position2) => Ok(
                                (position2, giver.with_asset(token_id, given2), amount),
                            ),
                        },
                    },
                },
            },
        }
    }
}

impl Contract {
    /// The value of `amount` of the token `token_id` at `prices`.
    pub fn value_of(
        prices: &Prices,
        token_id: &TokenId,
        amount: Balance,
        extra_decimals: u8,
    ) -> (r: Result<BigDecimal, Error>)
        ensures
            mantissa_of(r) == spec_value(prices@, token_id@, amount, extra_decimals),
    {
        let price = prices.get_unwrap(token_id)?;
        BigDecimal::from_balance_price(amount, &price, extra_decimals)
    }

    /// The greatest discount at which the collateral of `pre_account` can
    /// be had for the debts of `account`: zero for an account without debts
    /// or with debts that its collateral covers.
    pub fn compute_max_discount(&self, pre_account: &Account, account: &Account, prices: &Prices) -> (r:
        Result<BigDecimal, Error>)
        ensures
            mantissa_of(r) == spec_max_discount(self@, pre_account@, account@, prices@),
    {
        if account.borrowed.is_empty() {
            return Ok(BigDecimal::zero());
        }
        let mut collateral_sum = BigDecimal::zero();
        let mut i: usize = 0;
        while i < pre_account.supplied.len()
            invariant
                i <= pre_account@.supplied.len(),
                fold_results(0nat, pre_account@.supplied, collateral_step(self@, prices@), i as nat)
                    == Ok::<nat, Error>(collateral_sum@),
                account@.borrowed.len() != 0,
            decreases pre_account@.supplied.len() - i,
        {
            proof {
                lemma_fold_sticky(
                    0nat,
                    pre_account@.supplied,
                    collateral_step(self@, prices@),
                    (i + 1) as nat,
                    pre_account@.supplied.len(),
                );
            }
            let token_id = pre_account.supplied.key_at(i);
            let shares = *pre_account.supplied.value_at(i);
            let asset = self.internal_unwrap_asset(token_id)?;
            let balance = asset.supplied.shares_to_amount(shares, false)?;
            let value = Self::value_of(prices, token_id, balance, asset.config.extra_decimals)?;
            let weighted = value.mul_ratio(asset.config.volatility_ratio)?;
            collateral_sum = collateral_sum.checked_add(&weighted)?;
            i += 1;
        }
        let mut nft_collateral_sum = BigDecimal::zero();
        let mut i: usize = 0;
        while i < pre_account.nft_supplied.len()
            invariant
                i <= pre_account@.nft_supplied.len(),
                fold_results(
                    0nat,
                    pre_account@.supplied,
                    collateral_step(self@, prices@),
                    pre_account@.supplied.len(),
                ) == Ok::<nat, Error>(collateral_sum@),
                fold_results(
                    0nat,
                    pre_account@.nft_supplied,
                    nft_collateral_step(self@, prices@),
                    i as nat,
                ) == Ok::<nat, Error>(nft_collateral_sum@),
                account@.borrowed.len() != 0,
            decreases pre_account@.nft_supplied.len() - i,
        {
            proof {
                lemma_fold_sticky(
                    0nat,
                    pre_account@.nft_supplied,
                    nft_collateral_step(self@, prices@),
                    (i + 1) as nat,
                    pre_account@.nft_supplied.len(),
                );
            }
            let nft = pre_account.nft_supplied.value_at(i);
            let asset = self.internal_unwrap_asset(&nft.nft_contract_id)?;
            let value = Self::value_of(
                prices,
                &nft.nft_contract_id,
                NFT_BALANCE,
                asset.config.extra_decimals,
            )?;
            let weighted = value.mul_ratio(asset.config.volatility_ratio)?;
            nft_collateral_sum = nft_collateral_sum.checked_add(&weighted)?;
            i += 1;
        }
        let mut borrowed_sum = BigDecimal::zero();
        let mut i: usize = 0;
        while i < account.borrowed.len()
            invariant
                i <= account@.borrowed.len(),
                fold_results(
                    0nat,
                    pre_account@.supplied,
                    collateral_step(self@, prices@),
                    pre_account@.supplied.len(),
                ) == Ok::<nat, Error>(collateral_sum@),
                fold_results(
                    0nat,
                    pre_account@.nft_supplied,
                    nft_collateral_step(self@, prices@),
                    pre_account@.nft_supplied.len(),
                ) == Ok::<nat, Error>(nft_collateral_sum@),
                fold_results(0nat, account@.borrowed, borrowed_step(self@, prices@), i as nat)
                    == Ok::<nat, Error>(borrowed_sum@),
                account@.borrowed.len() != 0,
            decreases account@.borrowed.len() - i,
        {
            proof {
                lemma_fold_sticky(
                    0nat,
                    account@.borrowed,
                    borrowed_step(self@, prices@),
                    (i + 1) as nat,
                    account@.borrowed.len(),
                );
            }
            let token_id = account.borrowed.key_at(i);
            let shares = *account.borrowed.value_at(i);
            let asset = self.internal_unwrap_asset(token_id)?;
            let balance = asset.borrowed.shares_to_amount(shares, true)?;
            let value = Self::value_of(prices, token_id, balance, asset.config.extra_decimals)?;
            let weighted = value.div_ratio(asset.config.volatility_ratio)?;
            borrowed_sum = borrowed_sum.checked_add(&weighted)?;
            i += 1;
        }
        let total_collateral_sum = collateral_sum.checked_add(&nft_collateral_sum)?;
        if borrowed_sum.le(&total_collateral_sum) {
            Ok(BigDecimal::zero())
        } else {
            let shortfall = borrowed_sum.checked_sub(&total_collateral_sum)?.checked_div(
                &borrowed_sum,
            )?;
            shortfall.checked_div(&BigDecimal::from_u32(2))
        }
    }

    /// Supplies `amount` of `token_id` to the account and returns the shares
    /// that it gets for it.
    pub fn internal_deposit(&mut self, account: &mut Account, token_id: &TokenId, amount: Balance) -> (r:
        Result<Shares, Error>)
        ensures
            match old(self)@.deposited(old(account)@, token_id@, amount) {
                Ok((c, a, shares)) => r == Ok::<Shares, Error>(shares) && final(self)@ == c
                    && final(account)@ == a,
                Err(e) => r == Err::<Shares, Error>(e) && final(self)@ == old(self)@
                    && final(account)@ == old(account)@,
            },
    {
        let mut asset = self.internal_unwrap_asset(token_id)?;
        let mut account_asset = account.internal_get_asset_or_default(token_id);
        let shares = asset.supplied.amount_to_shares(amount, false)?;
        account_asset.deposit_shares(shares)?;
        asset.supplied.deposit(shares, amount)?;
        self.internal_set_asset(token_id, asset)?;
        account.internal_set_asset(token_id, account_asset);
        Ok(shares)
    }

    /// Takes what `asset_amount` asks for out of the account's supplied
    /// position, and returns the amount to send to the account.
    pub fn internal_withdraw(&mut self, account: &mut Account, asset_amount: &AssetAmount) -> (r:
        Result<Balance, Error>)
        ensures
            match old(self)@.withdrawn(old(account)@, *asset_amount) {
                Ok((c, a, amount)) => r == Ok::<Balance, Error>(amount) && final(self)@ == c
                    && final(account)@ == a,
                Err(e) => r == Err::<Balance, Error>(e) && final(self)@ == old(self)@
                    && final(account)@ == old(account)@,
            },
    {
        let mut asset = self.internal_unwrap_asset(&asset_amount.token_id)?;
        if !asset.config.can_withdraw {
            return Err(Error::WithdrawDisabled);
        }
        let mut account_asset = account.internal_unwrap_asset(&asset_amount.token_id)?;
        let (shares, amount) = asset_amount_to_shares(
            &asset.supplied,
            account_asset.shares,
            asset_amount,
            false,
        )?;
        let available_amount = asset.available_amount()?;
        if amount > available_amount {
            return Err(Error::ExceededAvailable);
        }
        account_asset.withdraw_shares(shares)?;
        asset.supplied.withdraw(shares, amount)?;
        self.internal_set_asset(&asset_amount.token_id, asset)?;
        account.internal_set_asset(&asset_amount.token_id, account_asset);
        Ok(amount)
    }

    /// Lends the account what `asset_amount` asks for, and returns the
    /// amount.  The amount stays in the ledger as a supplied position of the
    /// account.
    pub fn internal_borrow(&mut self, account: &mut Account, asset_amount: &AssetAmount) -> (r:
        Result<Balance, Error>)
        ensures
            match old(self)@.borrowed(old(account)@, *asset_amount) {
                Ok((c, a, amount)) => r == Ok::<Balance, Error>(amount) && final(self)@ == c
                    && final(account)@ == a,
                Err(e) => r == Err::<Balance, Error>(e) && final(self)@ == old(self)@
                    && final(account)@ == old(account)@,
            },
    {
        let mut asset = self.internal_unwrap_asset(&asset_amount.token_id)?;
        if !asset.config.can_borrow {
            return Err(Error::BorrowDisabled);
        }
        let mut account_asset = account.internal_get_asset_or_default(&asset_amount.token_id);
        let available_amount = asset.available_amount()?;
        let max_borrow_shares = asset.borrowed.amount_to_shares(available_amount, false)?;
        let (borrowed_shares, amount) = asset_amount_to_shares(
            &asset.borrowed,
            max_borrow_shares,
            asset_amount,
            true,
        )?;
        if amount > available_amount {
            return Err(Error::ExceededAvailable);
        }
        let supplied_shares = asset.supplied.amount_to_shares(amount, false)?;
        asset.borrowed.deposit(borrowed_shares, amount)?;
        asset.supplied.deposit(supplied_shares, amount)?;
        let held = account.get_borrowed_shares(&asset_amount.token_id);
        if held.0.checked_add(borrowed_shares.0).is_none() {
            return Err(Error::Overflow);
        }
        account_asset.deposit_shares(supplied_shares)?;
        self.internal_set_asset(&asset_amount.token_id, asset)?;
        let increased = account.increase_borrowed(&asset_amount.token_id, borrowed_shares);
        assert(increased is Ok);
        account.internal_set_asset(&asset_amount.token_id, account_asset);
        Ok(amount)
    }

    /// Repays what `asset_amount` asks for of the debt of `account`, out of
    /// the supplied position `account_asset`, and returns the amount.  Where
    /// the position does not hold what the request comes to, it is used up:
    /// the repayment is what it affords, unless the request fixed an amount.
    pub fn internal_repay(
        &mut self,
        account_asset: &mut AccountAsset,
        account: &mut Account,
        asset_amount: &AssetAmount,
    ) -> (r: Result<Balance, Error>)
        ensures
            match old(self)@.repaid(*old(account_asset), old(account)@, *asset_amount) {
                Ok((c, position, a, amount)) => r == Ok::<Balance, Error>(amount) && final(self)@
                    == c && *final(account_asset) == position && final(account)@ == a,
                Err(e) => r == Err::<Balance, Error>(e) && final(self)@ == old(self)@
                    && *final(account_asset) == *old(account_asset)
                    && final(account)@ == old(account)@,
            },
    {
        let mut asset = self.internal_unwrap_asset(&asset_amount.token_id)?;
        let available_borrowed_shares = account.internal_unwrap_borrowed(&asset_amount.token_id)?;
        let (mut borrowed_shares, mut amount) = asset_amount_to_shares(
            &asset.borrowed,
            available_borrowed_shares,
            asset_amount,
            true,
        )?;
        let mut supplied_shares = asset.supplied.amount_to_shares(amount, true)?;
        if supplied_shares.0 > account_asset.shares.0 {
            supplied_shares = account_asset.shares;
            amount = asset.supplied.shares_to_amount(supplied_shares, false)?;
            match asset_amount.amount {
                Some(min_amount) => {
                    if amount < min_amount {
                        return Err(Error::NotEnoughSuppliedBalance);
                    }
                },
                None => {},
            }
            if amount == 0 {
                return Err(Error::ZeroAmount);
            }
            borrowed_shares = asset.borrowed.amount_to_shares(amount, false)?;
            if borrowed_shares.0 == 0 {
                return Err(Error::ZeroShares);
            }
            if borrowed_shares.0 > available_borrowed_shares.0 {
                return Err(Error::NotEnoughBorrowed);
            }
        }
        asset.supplied.withdraw(supplied_shares, amount)?;
        asset.borrowed.withdraw(borrowed_shares, amount)?;
        if available_borrowed_shares.0 < borrowed_shares.0 {
            return Err(Error::NotEnoughBorrowed);
        }
        let mut position = *account_asset;
        position.withdraw_shares(supplied_shares)?;
        self.internal_set_asset(&asset_amount.token_id, asset)?;
        let decreased = account.decrease_borrowed(&asset_amount.token_id, borrowed_shares);
        assert(decreased is Ok);
        *account_asset = position;
        Ok(amount)
    }

    /// Moves the supplied shares that `asset_amount` asks for from `account`
    /// to the position `account_asset`, and returns the amount that they
    /// stand for.
    pub fn internal_decrease_supplied(
        &self,
        account_asset: &mut AccountAsset,
        account: &mut Account,
        asset_amount: &AssetAmount,
    ) -> (r: Result<Balance, Error>)
        ensures
            match self@.supplied_moved(*old(account_asset), old(account)@, *asset_amount) {
                Ok((position, a, amount)) => r == Ok::<Balance, Error>(amount)
                    && *final(account_asset) == position && final(account)@ == a,
                Err(e) => r == Err::<Balance, Error>(e)
                    && *final(account_asset) == *old(account_asset)
                    && final(account)@ == old(account)@,
            },
    {
        let asset = self.internal_unwrap_asset(&asset_amount.token_id)?;
        let mut account_asset_liquidation = account.internal_unwrap_asset(&asset_amount.token_id)?;
        let supplied_shares = account_asset_liquidation.shares;
        let (shares, amount) = asset_amount_to_shares(
            &asset.supplied,
            supplied_shares,
            asset_amount,
            false,
        )?;
        account_asset_liquidation.withdraw_shares(shares)?;
        let mut position = *account_asset;
        position.deposit_shares(shares)?;
        account.internal_set_asset(&asset_amount.token_id, account_asset_liquidation);
        *account_asset = position;
        Ok(amount)
    }
}

proof fn lemma_quotient_order(x1: nat, b1: nat, x2: nat, b2: nat)
    requires
        b1 > 0,
        b2 > 0,
        x1 * b2 <= x2 * b1,
    ensures
        x1 / b1 <= x2 / b2,
{
    let q1 = x1 / b1;
    let q2 = x2 / b2;
    lemma_fundamental_div_mod(x1 as int, b1 as int);
    lemma_mod_bound(x1 as int, b1 as int);
    lemma_fundamental_div_mod(x2 as int, b2 as int);
    lemma_mod_bound(x2 as int, b2 as int);
    let r2 = x2 % b2;
    assert(q1 <= q2) by (nonlinear_arith)
        requires
            b1 > 0,
            b2 > 0,
            x1 * b2 <= x2 * b1,
            b1 * q1 <= x1,
            x2 == b2 * q2 + r2,
            r2 < b2,
    {
        if q1 >= q2 + 1 {
            assert(b1 * q1 >= b1 * (q2 + 1));
            assert(x1 * b2 >= (b1 * (q2 + 1)) * b2);
            assert((b1 * (q2 + 1)) * b2 == b1 * (b2 * q2 + b2));
            assert(b1 * (b2 * q2 + b2) > b1 * x2);
            assert(b1 * x2 == x2 * b1);
        }
    }
}

/// Risk grows with the debt: against the same collateral, a greater debt
/// never has the smaller discount.  Without any collateral the rounding of
/// a debt of less than half a unit can go either way, so such debts are
/// left out.
pub proof fn lemma_discount_grows_with_debt(smaller: nat, greater: nat, collateral: nat)
    requires
        smaller <= greater,
        collateral > 0 || smaller > crate::big_decimal::HALF_DIVISOR,
    ensures
        spec_discount(smaller, collateral) matches Ok(d1) ==> (spec_discount(
            greater,
            collateral,
        ) matches Ok(d2) ==> d1 <= d2),
{
    let d = BIG_DIVISOR as nat;
    let h = crate::big_decimal::HALF_DIVISOR as nat;
    if smaller > collateral {
        let x1 = ((smaller - collateral) as nat) * d + h;
        let x2 = ((greater - collateral) as nat) * d + h;
        if collateral > 0 {
            assert(x1 * greater <= x2 * smaller) by (nonlinear_arith)
                requires
                    x1 == (smaller - collateral) * d + h,
                    x2 == (greater - collateral) * d + h,
                    collateral < smaller <= greater,
                    collateral >= 1,
                    d == 2 * h,
                    h > 0,
            {
                assert((smaller - collateral) * d * greater - (greater - collateral) * d * smaller
                    == collateral * d * (smaller - greater));
                assert(collateral * d * (greater - smaller) >= d * (greater - smaller));
                assert(h * greater - h * smaller == h * (greater - smaller));
            }
            lemma_quotient_order(x1, smaller, x2, greater);
        } else {
            // without collateral and above half a unit, both quotients are one
            assert(smaller * d + h < (d + 1) * smaller) by (nonlinear_arith)
                requires
                    smaller > h,
            ;
            assert(greater * d + h < (d + 1) * greater) by (nonlinear_arith)
                requires
                    greater > h,
            ;
            assert(smaller * d == d * smaller && greater * d == d * greater) by (nonlinear_arith);
            vstd::arithmetic::div_mod::lemma_fundamental_div_mod_converse(
                (smaller * d + h) as int,
                smaller as int,
                d as int,
                h as int,
            );
            vstd::arithmetic::div_mod::lemma_fundamental_div_mod_converse(
                (greater * d + h) as int,
                greater as int,
                d as int,
                h as int,
            );
        }
        let q1 = div_round((smaller - collateral) as nat, smaller);
        let q2 = div_round((greater - collateral) as nat, greater);
        assert(q1 <= q2);
        assert(q1 * d <= q2 * d) by (nonlinear_arith)
            requires
                q1 <= q2,
        ;
        lemma_div_is_ordered((q1 * d + h) as int, (q2 * d + h) as int, (2 * d) as int);
    }
}

/// Risk falls with the collateral: against the same debt, a greater
/// collateral never has the greater discount.
pub proof fn lemma_discount_falls_with_collateral(borrowed: nat, smaller: nat, greater: nat)
    requires
        smaller <= greater,
    ensures
        spec_discount(borrowed, smaller) matches Ok(d1) ==> (spec_discount(
            borrowed,
            greater,
        ) matches Ok(d2) ==> d2 <= d1),
{
    let d = BIG_DIVISOR as nat;
    let h = crate::big_decimal::HALF_DIVISOR as nat;
    if borrowed > greater {
        let x1 = ((borrowed - smaller) as nat) * d + h;
        let x2 = ((borrowed - greater) as nat) * d + h;
        assert(x2 <= x1) by (nonlinear_arith)
            requires
                x1 == (borrowed - smaller) * d + h,
                x2 == (borrowed - greater) * d + h,
                smaller <= greater < borrowed,
        ;
        lemma_div_is_ordered(x2 as int, x1 as int, borrowed as int);
        let q1 = div_round((borrowed - smaller) as nat, borrowed);
        let q2 = div_round((borrowed - greater) as nat, borrowed);
        assert(q2 * d <= q1 * d) by (nonlinear_arith)
            requires
                q2 <= q1,
        ;
        lemma_div_is_ordered((q2 * d + h) as int, (q1 * d + h) as int, (2 * d) as int);
    }
}

/// An account without debts has no discount, whatever the prices are.
pub proof fn lemma_no_debt_no_discount(
    c: ContractModel,
    pre_account: AccountModel,
    account: AccountModel,
    prices: Entries<Price>,
)
    requires
        account.borrowed.len() == 0,
    ensures
        spec_max_discount(c, pre_account, account, prices) == Ok::<nat, Error>(0),
{
}

/// Putting a solvent asset into a ledger of solvent assets leaves a ledger
/// of solvent assets.
pub proof fn lemma_upsert_solvent(c: ContractModel, token_id: Seq<char>, asset: AssetModel)
    requires
        c.solvent(),
        asset.solvent(),
    ensures
        (ContractModel { assets: upsert(c.assets, token_id, asset), ..c }).solvent(),
{
    let after = upsert(c.assets, token_id, asset);
    assert forall|i: int| 0 <= i < after.len() implies (#[trigger] after[i]).1.solvent() by {
        if has_key(c.assets, token_id) {
            if i != position(c.assets, token_id) {
                assert(after[i] == c.assets[i]);
            }
        } else {
            if i < c.assets.len() {
                assert(after[i] == c.assets[i]);
            }
        }
    }
}

/// Storing a solvent asset in a ledger of solvent assets leaves a ledger of
/// solvent assets.
pub proof fn lemma_with_asset_solvent(c: ContractModel, token_id: Seq<char>, asset: AssetModel)
    requires
        c.solvent(),
        asset.solvent(),
    ensures
        c.with_asset(token_id, asset) matches Ok(c2) ==> c2.solvent(),
{
    if c.with_asset(token_id, asset) is Ok {
        lemma_upsert_solvent(c, token_id, asset.settled()->Ok_0);
    }
}

/// Reading an asset of a ledger of solvent assets gives a solvent asset.
pub proof fn lemma_asset_solvent(c: ContractModel, token_id: Seq<char>)
    requires
        c.solvent(),
    ensures
        c.asset(token_id) matches Ok(asset) ==> asset.solvent(),
{
    if has_key(c.assets, token_id) {
        let p = position(c.assets, token_id);
        let stored = c.assets[p].1;
        assert(stored.solvent());
        crate::asset::lemma_update_solvent(stored, c.block_timestamp);
    }
}

/// A deposit keeps every asset solvent.
pub proof fn lemma_deposit_keeps_solvent(
    c: ContractModel,
    account: AccountModel,
    token_id: Seq<char>,
    amount: Balance,
)
    requires
        c.solvent(),
    ensures
        c.deposited(account, token_id, amount) matches Ok((c2, a2, shares)) ==> c2.solvent(),
{
    lemma_asset_solvent(c, token_id);
    if c.deposited(account, token_id, amount) is Ok {
        let asset = c.asset(token_id)->Ok_0;
        let shares = asset.supplied.shares_for(amount, false)->Ok_0;
        let pool = asset.supplied.after_deposit(shares, amount)->Ok_0;
        lemma_with_asset_solvent(c, token_id, AssetModel { supplied: pool, ..asset });
    }
}

/// A withdrawal keeps every asset solvent: nothing leaves that is lent out.
pub proof fn lemma_withdraw_keeps_solvent(
    c: ContractModel,
    account: AccountModel,
    asset_amount: AssetAmount,
)
    requires
        c.solvent(),
    ensures
        c.withdrawn(account, asset_amount) matches Ok((c2, a2, amount)) ==> c2.solvent(),
{
    let token_id = asset_amount.token_id@;
    lemma_asset_solvent(c, token_id);
    if c.withdrawn(account, asset_amount) is Ok {
        let asset = c.asset(token_id)->Ok_0;
        let position = account.asset_or_error(token_id)->Ok_0;
        let resolved = spec_asset_amount_to_shares(
            asset.supplied,
            position.shares,
            asset_amount.amount,
            asset_amount.max_amount,
            false,
        )->Ok_0;
        let pool = asset.supplied.after_withdraw(resolved.0, resolved.1)->Ok_0;
        lemma_with_asset_solvent(c, token_id, AssetModel { supplied: pool, ..asset });
    }
}

/// A loan keeps every asset solvent: what is lent is supplied again.
pub proof fn lemma_borrow_keeps_solvent(
    c: ContractModel,
    account: AccountModel,
    asset_amount: AssetAmount,
)
    requires
        c.solvent(),
    ensures
        c.borrowed(account, asset_amount) matches Ok((c2, a2, amount)) ==> c2.solvent(),
{
    let token_id = asset_amount.token_id@;
    lemma_asset_solvent(c, token_id);
    if c.borrowed(account, asset_amount) is Ok {
        let asset = c.asset(token_id)->Ok_0;
        let available = asset.available()->Ok_0;
        let max_borrow_shares = asset.borrowed.shares_for(available, false)->Ok_0;
        let resolved = spec_asset_amount_to_shares(
            asset.borrowed,
            max_borrow_shares,
            asset_amount.amount,
            asset_amount.max_amount,
            true,
        )->Ok_0;
        let supplied_shares = asset.supplied.shares_for(resolved.1, false)->Ok_0;
        let borrowed_pool = asset.borrowed.after_deposit(resolved.0, resolved.1)->Ok_0;
        let supplied_pool = asset.supplied.after_deposit(supplied_shares, resolved.1)->Ok_0;
        lemma_with_asset_solvent(
            c,
            token_id,
            AssetModel { supplied: supplied_pool, borrowed: borrowed_pool, ..asset },
        );
    }
}

/// A repayment keeps every asset solvent: the debt shrinks by what leaves
/// the supplied pool.
pub proof fn lemma_repay_keeps_solvent(
    c: ContractModel,
    position: AccountAsset,
    debtor: AccountModel,
    asset_amount: AssetAmount,
)
    requires
        c.solvent(),
    ensures
        c.repaid(position, debtor, asset_amount) matches Ok((after, position2, debtor2, amount)) ==> after.solvent(),
{
    let token_id = asset_amount.token_id@;
    lemma_asset_solvent(c, token_id);
    if c.repaid(position, debtor, asset_amount) is Ok {
        let asset = c.asset(token_id)->Ok_0;
        let available_borrowed = debtor.borrowed_or_error(token_id)->Ok_0;
        let parts = ContractModel::repayment(asset, position, available_borrowed, asset_amount)->Ok_0;
        let supplied_pool = asset.supplied.after_withdraw(parts.0, parts.2)->Ok_0;
        let borrowed_pool = asset.borrowed.after_withdraw(parts.1, parts.2)->Ok_0;
        lemma_with_asset_solvent(
            c,
            token_id,
            AssetModel { supplied: supplied_pool, borrowed: borrowed_pool, ..asset },
        );
    }
}

} // verus!

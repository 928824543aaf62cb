//! The events of the ledger, one function for each.

use crate::big_decimal::BigDecimal;
use crate::booster_staking::BoosterStaking;
use crate::events::Event;
use crate::pool::Balance;
use crate::utils::{AccountId, DurationSec, NFTContractId, NFTTokenId, TokenId};
use vstd::prelude::*;

verus! {

/// Tokens went into an asset's reserve.
pub fn deposit_to_reserve(account_id: &AccountId, amount: Balance, token_id: &TokenId) -> (r: Event)
    ensures
        r == (Event::DepositToReserve { account_id: *account_id, amount, token_id: *token_id }),
{
    Event::DepositToReserve { account_id: account_id.clone(), amount, token_id: token_id.clone() }
}

/// An account supplied tokens.
pub fn deposit(account_id: &AccountId, amount: Balance, token_id: &TokenId) -> (r: Event)
    ensures
        r == (Event::Deposit { account_id: *account_id, amount, token_id: *token_id }),
{
    Event::Deposit { account_id: account_id.clone(), amount, token_id: token_id.clone() }
}

/// A withdrawal left the ledger; the transfer is under way.
pub fn withdraw_started(account_id: &AccountId, amount: Balance, token_id: &TokenId) -> (r: Event)
    ensures
        r == (Event::WithdrawStarted { account_id: *account_id, amount, token_id: *token_id }),
{
    Event::WithdrawStarted { account_id: account_id.clone(), amount, token_id: token_id.clone() }
}

/// The transfer of a withdrawal failed; the tokens were supplied again.
pub fn withdraw_failed(account_id: &AccountId, amount: Balance, token_id: &TokenId) -> (r: Event)
    ensures
        r == (Event::WithdrawFailed { account_id: *account_id, amount, token_id: *token_id }),
{
    Event::WithdrawFailed { account_id: account_id.clone(), amount, token_id: token_id.clone() }
}

/// The transfer of a withdrawal arrived.
pub fn withdraw_succeeded(account_id: &AccountId, amount: Balance, token_id: &TokenId) -> (r: Event)
    ensures
        r == (Event::WithdrawSucceeded { account_id: *account_id, amount, token_id: *token_id }),
{
    Event::WithdrawSucceeded { account_id: account_id.clone(), amount, token_id: token_id.clone() }
}

/// A non-fungible token left the ledger; the transfer is under way.
pub fn withdraw_nft_started(
    account_id: &AccountId,
    nft_contract_id: &NFTContractId,
    token_id: &NFTTokenId,
) -> (r: Event)
    ensures
        r == (Event::WithdrawNftStarted {
            account_id: *account_id,
            nft_contract_id: *nft_contract_id,
            token_id: *token_id,
        }),
{
    Event::WithdrawNftStarted {
        account_id: account_id.clone(),
        nft_contract_id: nft_contract_id.clone(),
        token_id: token_id.clone(),
    }
}

/// The transfer of a non-fungible token failed; it was supplied again.
pub fn withdraw_nft_failed(
    account_id: &AccountId,
    nft_contract_id: &NFTContractId,
    token_id: &NFTTokenId,
) -> (r: Event)
    ensures
        r == (Event::WithdrawNftFailed {
            account_id: *account_id,
            nft_contract_id: *nft_contract_id,
            token_id: *token_id,
        }),
{
    Event::WithdrawNftFailed {
        account_id: account_id.clone(),
        nft_contract_id: nft_contract_id.clone(),
        token_id: token_id.clone(),
    }
}

/// The transfer of a non-fungible token arrived.
pub fn withdraw_nft_succeeded(
    account_id: &AccountId,
    nft_contract_id: &NFTContractId,
    token_id: &NFTTokenId,
) -> (r: Event)
    ensures
        r == (Event::WithdrawNftSucceeded {
            account_id: *account_id,
            nft_contract_id: *nft_contract_id,
            token_id: *token_id,
        }),
{
    Event::WithdrawNftSucceeded {
        account_id: account_id.clone(),
        nft_contract_id: nft_contract_id.clone(),
        token_id: token_id.clone(),
    }
}

/// An account borrowed tokens.
pub fn borrow(account_id: &AccountId, amount: Balance, token_id: &TokenId) -> (r: Event)
    ensures
        r == (Event::Borrow { account_id: *account_id, amount, token_id: *token_id }),
{
    Event::Borrow { account_id: account_id.clone(), amount, token_id: token_id.clone() }
}

/// An account repaid tokens.
pub fn repay(account_id: &AccountId, amount: Balance, token_id: &TokenId) -> (r: Event)
    ensures
        r == (Event::Repay { account_id: *account_id, amount, token_id: *token_id }),
{
    Event::Repay { account_id: account_id.clone(), amount, token_id: token_id.clone() }
}

/// An account repaid debts of another and took collateral for it.
pub fn liquidate(
    account_id: &AccountId,
    liquidation_account_id: &AccountId,
    collateral_sum: &BigDecimal,
    repaid_sum: &BigDecimal,
) -> (r: Event)
    ensures
        r == (Event::Liquidate {
            account_id: *account_id,
            liquidation_account_id: *liquidation_account_id,
            collateral_sum: *collateral_sum,
            repaid_sum: *repaid_sum,
        }),
{
    Event::Liquidate {
        account_id: account_id.clone(),
        liquidation_account_id: liquidation_account_id.clone(),
        collateral_sum: *collateral_sum,
        repaid_sum: *repaid_sum,
    }
}

/// The debts of an account were written off against the reserves.
pub fn force_close(
    liquidation_account_id: &AccountId,
    collateral_sum: &BigDecimal,
    repaid_sum: &BigDecimal,
) -> (r: Event)
    ensures
        r == (Event::ForceClose {
            liquidation_account_id: *liquidation_account_id,
            collateral_sum: *collateral_sum,
            repaid_sum: *repaid_sum,
        }),
{
    Event::ForceClose {
        liquidation_account_id: liquidation_account_id.clone(),
        collateral_sum: *collateral_sum,
        repaid_sum: *repaid_sum,
    }
}

/// An account staked booster tokens.
pub fn booster_stake(
    account_id: &AccountId,
    amount: Balance,
    duration: DurationSec,
    extra_x_booster_amount: Balance,
    booster_staking: &BoosterStaking,
) -> (r: Event)
    ensures
        r == (Event::BoosterStake {
            account_id: *account_id,
            booster_amount: amount,
            duration,
            x_booster_amount: extra_x_booster_amount,
            total_booster_amount: booster_staking.staked_booster_amount,
            total_x_booster_amount: booster_staking.x_booster_amount,
        }),
{
    Event::BoosterStake {
        account_id: account_id.clone(),
        booster_amount: amount,
        duration,
        x_booster_amount: extra_x_booster_amount,
        total_booster_amount: booster_staking.staked_booster_amount,
        total_x_booster_amount: booster_staking.x_booster_amount,
    }
}

/// An account took its booster tokens back.
pub fn booster_unstake(account_id: &AccountId, booster_staking: &BoosterStaking) -> (r: Event)
    ensures
        r == (Event::BoosterUnstake {
            account_id: *account_id,
            total_booster_amount: booster_staking.staked_booster_amount,
            total_x_booster_amount: booster_staking.x_booster_amount,
        }),
{
    Event::BoosterUnstake {
        account_id: account_id.clone(),
        total_booster_amount: booster_staking.staked_booster_amount,
        total_x_booster_amount: booster_staking.x_booster_amount,
    }
}

} // verus!

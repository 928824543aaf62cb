//! What the ledger reports of a call.

use crate::big_decimal::BigDecimal;
use crate::pool::Balance;
use crate::utils::{AccountId, DurationSec, NFTContractId, NFTTokenId, TokenId};
use vstd::prelude::*;

pub mod emit;

verus! {

/// The standard under which the events are published.
pub const EVENT_STANDARD: &'static str = "nearlend";

/// The version of the standard.
pub const EVENT_VERSION: &'static str = "1.0.0";

/// One event.  The ledger only states it; publishing is left to the caller.
#[derive(Debug)]
#[allow(inconsistent_fields)]
pub enum Event {
    DepositToReserve { account_id: AccountId, amount: Balance, token_id: TokenId },
    Deposit { account_id: AccountId, amount: Balance, token_id: TokenId },
    WithdrawStarted { account_id: AccountId, amount: Balance, token_id: TokenId },
    WithdrawFailed { account_id: AccountId, amount: Balance, token_id: TokenId },
    WithdrawSucceeded { account_id: AccountId, amount: Balance, token_id: TokenId },
    WithdrawNftStarted {
        account_id: AccountId,
        nft_contract_id: NFTContractId,
        token_id: NFTTokenId,
    },
    WithdrawNftFailed { account_id: AccountId, nft_contract_id: NFTContractId, token_id: NFTTokenId },
    WithdrawNftSucceeded {
        account_id: AccountId,
        nft_contract_id: NFTContractId,
        token_id: NFTTokenId,
    },
    Borrow { account_id: AccountId, amount: Balance, token_id: TokenId },
    Repay { account_id: AccountId, amount: Balance, token_id: TokenId },
    Liquidate {
        account_id: AccountId,
        liquidation_account_id: AccountId,
        collateral_sum: BigDecimal,
        repaid_sum: BigDecimal,
    },
    ForceClose { liquidation_account_id: AccountId, collateral_sum: BigDecimal, repaid_sum: BigDecimal },
    BoosterStake {
        account_id: AccountId,
        booster_amount: Balance,
        duration: DurationSec,
        x_booster_amount: Balance,
        total_booster_amount: Balance,
        total_x_booster_amount: Balance,
    },
    BoosterUnstake {
        account_id: AccountId,
        total_booster_amount: Balance,
        total_x_booster_amount: Balance,
    },
}

/// An event as the contracts see it: its name, the account that caused it,
/// the token or the other account that it is about, the non-fungible token
/// where there is one, and its numbers in the order of the event's fields.
pub struct EventView {
    pub name: Seq<char>,
    pub account_id: Seq<char>,
    pub subject: Seq<char>,
    pub nft_token_id: Seq<char>,
    pub numbers: Seq<nat>,
}

impl View for Event {
    type V = EventView;

    open spec fn view(&self) -> EventView {
        let none = Seq::<char>::empty();
        match *self {
            Event::DepositToReserve { account_id, amount, token_id } => EventView {
                name: self.spec_name(),
                account_id: account_id@,
                subject: token_id@,
                nft_token_id: none,
                numbers: seq![amount as nat],
            },
            Event::Deposit { account_id, amount, token_id } => EventView {
                name: self.spec_name(),
                account_id: account_id@,
                subject: token_id@,
                nft_token_id: none,
                numbers: seq![amount as nat],
            },
            Event::WithdrawStarted { account_id, amount, token_id } => EventView {
                name: self.spec_name(),
                account_id: account_id@,
                subject: token_id@,
                nft_token_id: none,
                numbers: seq![amount as nat],
            },
            Event::WithdrawFailed { account_id, amount, token_id } => EventView {
                name: self.spec_name(),
                account_id: account_id@,
                subject: token_id@,
                nft_token_id: none,
                numbers: seq![amount as nat],
            },
            Event::WithdrawSucceeded { account_id, amount, token_id } => EventView {
                name: self.spec_name(),
                account_id: account_id@,
                subject: token_id@,
                nft_token_id: none,
                numbers: seq![amount as nat],
            },
            Event::WithdrawNftStarted { account_id, nft_contract_id, token_id } => EventView {
                name: self.spec_name(),
                account_id: account_id@,
                subject: nft_contract_id@,
                nft_token_id: token_id@,
                numbers: Seq::<nat>::empty(),
            },
            Event::WithdrawNftFailed { account_id, nft_contract_id, token_id } => EventView {
                name: self.spec_name(),
                account_id: account_id@,
                subject: nft_contract_id@,
                nft_token_id: token_id@,
                numbers: Seq::<nat>::empty(),
            },
            Event::WithdrawNftSucceeded { account_id, nft_contract_id, token_id } => EventView {
                name: self.spec_name(),
                account_id: account_id@,
                subject: nft_contract_id@,
                nft_token_id: token_id@,
                numbers: Seq::<nat>::empty(),
            },
            Event::Borrow { account_id, amount, token_id } => EventView {
                name: self.spec_name(),
                account_id: account_id@,
                subject: token_id@,
                nft_token_id: none,
                numbers: seq![amount as nat],
            },
            Event::Repay { account_id, amount, token_id } => EventView {
                name: self.spec_name(),
                account_id: account_id@,
                subject: token_id@,
                nft_token_id: none,
                numbers: seq![amount as nat],
            },
            Event::Liquidate { account_id, liquidation_account_id, collateral_sum, repaid_sum } => EventView {
                name: self.spec_name(),
                account_id: account_id@,
                subject: liquidation_account_id@,
                nft_token_id: none,
                numbers: seq![collateral_sum@, repaid_sum@],
            },
            Event::ForceClose { liquidation_account_id, collateral_sum, repaid_sum } => EventView {
                name: self.spec_name(),
                account_id: none,
                subject: liquidation_account_id@,
                nft_token_id: none,
                numbers: seq![collateral_sum@, repaid_sum@],
            },
            Event::BoosterStake {
                account_id,
                booster_amount,
                duration,
                x_booster_amount,
                total_booster_amount,
                total_x_booster_amount,
            } => EventView {
                name: self.spec_name(),
                account_id: account_id@,
                subject: none,
                nft_token_id: none,
                numbers: seq![
                    booster_amount as nat,
                    duration as nat,
                    x_booster_amount as nat,
                    total_booster_amount as nat,
                    total_x_booster_amount as nat,
                ],
            },
            Event::BoosterUnstake { account_id, total_booster_amount, total_x_booster_amount } => EventView {
                name: self.spec_name(),
                account_id: account_id@,
                subject: none,
                nft_token_id: none,
                numbers: seq![total_booster_amount as nat, total_x_booster_amount as nat],
            },
        }
    }
}

impl Event {
    /// The name under which the event is published.
    pub open spec fn spec_name(&self) -> Seq<char> {
        match *self {
            Event::DepositToReserve { .. } => "deposit_to_reserve"@,
            Event::Deposit { .. } => "deposit"@,
            Event::WithdrawStarted { .. } => "withdraw_started"@,
            Event::WithdrawFailed { .. } => "withdraw_failed"@,
            Event::WithdrawSucceeded { .. } => "withdraw_succeeded"@,
            Event::WithdrawNftStarted { .. } => "withdraw_nft_started"@,
            Event::WithdrawNftFailed { .. } => "withdraw_nft_failed"@,
            Event::WithdrawNftSucceeded { .. } => "withdraw_nft_succeeded"@,
            Event::Borrow { .. } => "borrow"@,
            Event::Repay { .. } => "repay"@,
            Event::Liquidate { .. } => "liquidate"@,
            Event::ForceClose { .. } => "force_close"@,
            Event::BoosterStake { .. } => "booster_stake"@,
            Event::BoosterUnstake { .. } => "booster_unstake"@,
        }
    }

    /// The name under which the event is published.
    pub fn name(&self) -> (r: String)
        ensures
            r@ == self.spec_name(),
    {
        match self {
            Event::DepositToReserve { .. } => String::from_str("deposit_to_reserve"),
            Event::Deposit { .. } => String::from_str("deposit"),
            Event::WithdrawStarted { .. } => String::from_str("withdraw_started"),
            Event::WithdrawFailed { .. } => String::from_str("withdraw_failed"),
            Event::WithdrawSucceeded { .. } => String::from_str("withdraw_succeeded"),
            Event::WithdrawNftStarted { .. } => String::from_str("withdraw_nft_started"),
            Event::WithdrawNftFailed { .. } => String::from_str("withdraw_nft_failed"),
            Event::WithdrawNftSucceeded { .. } => String::from_str("withdraw_nft_succeeded"),
            Event::Borrow { .. } => String::from_str("borrow"),
            Event::Repay { .. } => String::from_str("repay"),
            Event::Liquidate { .. } => String::from_str("liquidate"),
            Event::ForceClose { .. } => String::from_str("force_close"),
            Event::BoosterStake { .. } => String::from_str("booster_stake"),
            Event::BoosterUnstake { .. } => String::from_str("booster_unstake"),
        }
    }
}

} // verus!

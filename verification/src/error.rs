//! The reasons for which the ledger rejects a call.

use vstd::prelude::*;

verus! {

/// Why an operation was rejected.  Every rejection is final for the call
/// that met it: the ledger never applies a part of a rejected batch.
#[derive(Clone, Copy, Debug, PartialEq, Eq, Structural)]
pub enum Error {
    /// A number left the range of its type.
    Overflow,
    /// A fixed-point subtraction would have gone below zero.
    NegativeDecimal,
    /// A division by zero was asked for.
    DivisionByZero,
    /// A request resolved to zero shares.
    ZeroShares,
    /// A request resolved to a zero amount.
    ZeroAmount,
    /// The token has no asset in the ledger.
    AssetNotFound,
    /// The account is not registered.
    AccountNotFound,
    /// The account holds no supplied position in the token.
    SuppliedNotFound,
    /// The account holds no borrowed position in the token.
    BorrowedNotFound,
    /// The account's supplied position is smaller than the shares taken.
    NotEnoughSupplied,
    /// The account's borrowed position is smaller than the shares repaid.
    NotEnoughBorrowed,
    /// A pool holds fewer shares than are taken from it.
    NotEnoughShares,
    /// A pool holds a smaller amount than is taken from it.
    NotEnoughBalance,
    /// A pool has shares but no amount behind them.
    PoolInvariant,
    /// An asset has a borrowed amount but no borrowed shares.
    BorrowedInvariant,
    /// The asset does not allow withdrawals.
    WithdrawDisabled,
    /// The asset does not allow borrowing.
    BorrowDisabled,
    /// The asset does not allow deposits.
    DepositDisabled,
    /// The amount exceeds what the asset has available.
    ExceededAvailable,
    /// A repayment was clamped below the amount that the request fixed.
    NotEnoughSuppliedBalance,
    /// No price was given for a token that the computation needs.
    MissingPrice,
    /// The caller named itself as the account to liquidate.
    SelfLiquidation,
    /// A liquidation came with an empty list of assets.
    EmptyAssets,
    /// The account to liquidate is not at risk.
    NotAtRisk,
    /// The discounted collateral taken is worth more than what was repaid.
    NotEnoughRepaid,
    /// The liquidation would take the account out of risk altogether.
    LiquidationTooLarge,
    /// The liquidation would not lower the account's discount.
    HealthNotImproved,
    /// Force closing is switched off.
    ForceCloseDisabled,
    /// The account's debt is not worth more than its collateral.
    NotBadDebt,
    /// The asset's reserve does not cover the debt written off.
    NotEnoughReserve,
    /// The token is not in the asset's pool of non-fungible tokens.
    NftNotFound,
    /// The token in the pool belongs to another account.
    NftNotOwner,
    /// The account would be left at risk.
    Unhealthy,
    /// The account would hold more distinct assets than allowed.
    TooManyAssets,
    /// The oracle gathered the prices over a longer span than allowed.
    PriceRecencyTooLarge,
    /// The prices bear a time that has not come yet.
    PriceFromFuture,
    /// The prices are older than allowed.
    PriceTooStale,
    /// An asset configuration is out of range.
    InvalidConfig,
    /// An asset has lent out more than it holds.
    Insolvent,
    /// A farm does not know a reward token that an account holds of it.
    FarmRewardNotFound,
    /// An account takes part in a farm that is not there.
    FarmNotFound,
    /// The time for which booster tokens are to be staked is shorter or
    /// longer than allowed.
    StakingDurationOutOfRange,
    /// The new stake would be free before the one that the account has.
    StakeShortened,
    /// The account has staked no booster tokens.
    NoStake,
    /// The stake of booster tokens is not free yet.
    StakeLocked,
    /// The caller is not the owner of the ledger.
    NotOwner,
    /// The token has an asset already.
    AssetExists,
    /// The time given lies before the last update.
    ClockWentBack,
}

impl Error {
    /// The reason in words.
    pub open spec fn text(&self) -> Seq<char> {
        match *self {
            Error::Overflow => "A number left the range of its type"@,
            Error::NegativeDecimal => "A fixed-point subtraction would have gone below zero"@,
            Error::DivisionByZero => "A division by zero was asked for"@,
            Error::ZeroShares => "A request resolved to zero shares"@,
            Error::ZeroAmount => "A request resolved to a zero amount"@,
            Error::AssetNotFound => "The token has no asset in the ledger"@,
            Error::AccountNotFound => "The account is not registered"@,
            Error::SuppliedNotFound => "The account holds no supplied position in the token"@,
            Error::BorrowedNotFound => "The account holds no borrowed position in the token"@,
            Error::NotEnoughSupplied => "The account's supplied position is smaller than the shares taken"@,
            Error::NotEnoughBorrowed => "The account's borrowed position is smaller than the shares repaid"@,
            Error::NotEnoughShares => "A pool holds fewer shares than are taken from it"@,
            Error::NotEnoughBalance => "A pool holds a smaller amount than is taken from it"@,
            Error::PoolInvariant => "A pool has shares but no amount behind them"@,
            Error::BorrowedInvariant => "An asset has a borrowed amount but no borrowed shares"@,
            Error::WithdrawDisabled => "The asset does not allow withdrawals"@,
            Error::BorrowDisabled => "The asset does not allow borrowing"@,
            Error::DepositDisabled => "The asset does not allow deposits"@,
            Error::ExceededAvailable => "The amount exceeds what the asset has available"@,
            Error::NotEnoughSuppliedBalance => "A repayment was clamped below the amount that the request fixed"@,
            Error::MissingPrice => "No price was given for a token that the computation needs"@,
            Error::SelfLiquidation => "The caller named itself as the account to liquidate"@,
            Error::EmptyAssets => "A liquidation came with an empty list of assets"@,
            Error::NotAtRisk => "The account to liquidate is not at risk"@,
            Error::NotEnoughRepaid => "The discounted collateral taken is worth more than what was repaid"@,
            Error::LiquidationTooLarge => "The liquidation would take the account out of risk altogether"@,
            Error::HealthNotImproved => "The liquidation would not lower the account's discount"@,
            Error::ForceCloseDisabled => "Force closing is switched off"@,
            Error::NotBadDebt => "The account's debt is not worth more than its collateral"@,
            Error::NotEnoughReserve => "The asset's reserve does not cover the debt written off"@,
            Error::NftNotFound => "The token is not in the asset's pool of non-fungible tokens"@,
            Error::NftNotOwner => "The token in the pool belongs to another account"@,
            Error::Unhealthy => "The account would be left at risk"@,
            Error::TooManyAssets => "The account would hold more distinct assets than allowed"@,
            Error::PriceRecencyTooLarge => "The oracle gathered the prices over a longer span than allowed"@,
            Error::PriceFromFuture => "The prices bear a time that has not come yet"@,
            Error::PriceTooStale => "The prices are older than allowed"@,
            Error::InvalidConfig => "An asset configuration is out of range"@,
            Error::Insolvent => "An asset has lent out more than it holds"@,
            Error::FarmRewardNotFound => "A farm does not know a reward token that an account holds of it"@,
            Error::FarmNotFound => "An account takes part in a farm that is not there"@,
            Error::StakingDurationOutOfRange => "Duration is out of range"@,
            Error::StakeShortened => "The new staking duration is shorter than the current remaining staking duration"@,
            Error::NoStake => "No staked booster token"@,
            Error::StakeLocked => "The staking is not unlocked yet"@,
            Error::NotOwner => "The caller is not the owner of the ledger"@,
            Error::AssetExists => "The token has an asset already"@,
            Error::ClockWentBack => "The time given lies before the last update"@,
        }
    }

    /// The reason in words, for whoever made the call.
    pub fn message(&self) -> (r: String)
        ensures
            r@ == self.text(),
    {
        match self {
            Error::Overflow => String::from_str("A number left the range of its type"),
            Error::NegativeDecimal => String::from_str("A fixed-point subtraction would have gone below zero"),
            Error::DivisionByZero => String::from_str("A division by zero was asked for"),
            Error::ZeroShares => String::from_str("A request resolved to zero shares"),
            Error::ZeroAmount => String::from_str("A request resolved to a zero amount"),
            Error::AssetNotFound => String::from_str("The token has no asset in the ledger"),
            Error::AccountNotFound => String::from_str("The account is not registered"),
            Error::SuppliedNotFound => String::from_str("The account holds no supplied position in the token"),
            Error::BorrowedNotFound => String::from_str("The account holds no borrowed position in the token"),
            Error::NotEnoughSupplied => String::from_str("The account's supplied position is smaller than the shares taken"),
            Error::NotEnoughBorrowed => String::from_str("The account's borrowed position is smaller than the shares repaid"),
            Error::NotEnoughShares => String::from_str("A pool holds fewer shares than are taken from it"),
            Error::NotEnoughBalance => String::from_str("A pool holds a smaller amount than is taken from it"),
            Error::PoolInvariant => String::from_str("A pool has shares but no amount behind them"),
            Error::BorrowedInvariant => String::from_str("An asset has a borrowed amount but no borrowed shares"),
            Error::WithdrawDisabled => String::from_str("The asset does not allow withdrawals"),
            Error::BorrowDisabled => String::from_str("The asset does not allow borrowing"),
            Error::DepositDisabled => String::from_str("The asset does not allow deposits"),
            Error::ExceededAvailable => String::from_str("The amount exceeds what the asset has available"),
            Error::NotEnoughSuppliedBalance => String::from_str("A repayment was clamped below the amount that the request fixed"),
            Error::MissingPrice => String::from_str("No price was given for a token that the computation needs"),
            Error::SelfLiquidation => String::from_str("The caller named itself as the account to liquidate"),
            Error::EmptyAssets => String::from_str("A liquidation came with an empty list of assets"),
            Error::NotAtRisk => String::from_str("The account to liquidate is not at risk"),
            Error::NotEnoughRepaid => String::from_str("The discounted collateral taken is worth more than what was repaid"),
            Error::LiquidationTooLarge => String::from_str("The liquidation would take the account out of risk altogether"),
            Error::HealthNotImproved => String::from_str("The liquidation would not lower the account's discount"),
            Error::ForceCloseDisabled => String::from_str("Force closing is switched off"),
            Error::NotBadDebt => String::from_str("The account's debt is not worth more than its collateral"),
            Error::NotEnoughReserve => String::from_str("The asset's reserve does not cover the debt written off"),
            Error::NftNotFound => String::from_str("The token is not in the asset's pool of non-fungible tokens"),
            Error::NftNotOwner => String::from_str("The token in the pool belongs to another account"),
            Error::Unhealthy => String::from_str("The account would be left at risk"),
            Error::TooManyAssets => String::from_str("The account would hold more distinct assets than allowed"),
            Error::PriceRecencyTooLarge => String::from_str("The oracle gathered the prices over a longer span than allowed"),
            Error::PriceFromFuture => String::from_str("The prices bear a time that has not come yet"),
            Error::PriceTooStale => String::from_str("The prices are older than allowed"),
            Error::InvalidConfig => String::from_str("An asset configuration is out of range"),
            Error::Insolvent => String::from_str("An asset has lent out more than it holds"),
            Error::FarmRewardNotFound => String::from_str(
                "A farm does not know a reward token that an account holds of it",
            ),
            Error::FarmNotFound => String::from_str(
                "An account takes part in a farm that is not there",
            ),
            Error::StakingDurationOutOfRange => String::from_str("Duration is out of range"),
            Error::StakeShortened => String::from_str(
                "The new staking duration is shorter than the current remaining staking duration",
            ),
            Error::NoStake => String::from_str("No staked booster token"),
            Error::StakeLocked => String::from_str("The staking is not unlocked yet"),
            Error::NotOwner => String::from_str("The caller is not the owner of the ledger"),
            Error::AssetExists => String::from_str("The token has an asset already"),
            Error::ClockWentBack => String::from_str("The time given lies before the last update"),
        }
    }
}

} // verus!

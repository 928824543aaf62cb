//! The accounting core of a collateralized lending ledger.
//!
//! Accounts supply tokens to the pools of the ledger's assets and borrow
//! from them against what they have supplied.  Debts grow by an interest
//! that follows the utilization of each asset.  An account whose debts
//! outgrow its collateral can be liquidated by another, at a discount that
//! grows with the shortfall.
//!
//! The ledger does no input or output.  A call is served on a [`Contract`]
//! that holds the assets and accounts concerned and the time of the call;
//! what the call leaves to do outside, transfers and events, it returns.
//! Every function either does all of its work or refuses and leaves
//! everything as it was, and says which in a [`Result`].
//!
//! The modules, from the ground up:
//!
//! - [`wide`], [`big_decimal`], [`text`]: wide integers and fixed-point
//!   decimals, and their digits.
//! - [`pool`], [`asset_config`], [`asset`], [`nft_pool`]: the share ledger of
//!   one side of an asset, the interest rate curve, and the asset itself.
//! - [`str_map`], [`account`] and its parts: the positions of an account.
//! - [`prices`], [`price_receiver`]: the prices of one call.
//! - [`contract`], [`config`]: the ledger and its parameters.
//! - [`actions`], [`liquidation`], [`execute`]: what an account can ask
//!   for, one action at a time and in batches.
//! - [`fungible_token`], [`non_fungible_token`]: tokens on their way in.
//! - [`asset_farm`], [`account_farm`], [`farm_claim`], [`farm_settle`],
//!   [`booster_staking`]: what accounts earn for holding positions, and
//!   the stakes that add to it.  A farm is read, claimed of and settled
//!   one at a time: the caller keeps the farms and walks through those
//!   that a call has marked.
//! - [`events`], [`account_view`], [`asset_view`], [`asset_apr`]: what the
//!   ledger reports.
//!
//! The contracts are stated over models of the data: an account as
//! [`account::AccountModel`], the ledger as [`contract::ContractModel`].
//! The laws that hold of all states stand beside the functions that they
//! are about, as proof functions named `lemma_...`.
//!
//! [`Contract`]: contract::Contract

pub mod account;
pub mod account_asset;
pub mod account_farm;
pub mod account_nft_asset;
pub mod account_view;
pub mod actions;
pub mod asset;
pub mod asset_apr;
pub mod asset_config;
pub mod asset_farm;
pub mod asset_view;
pub mod big_decimal;
pub mod booster_staking;
pub mod config;
pub mod contract;
pub mod error;
pub mod events;
pub mod execute;
pub mod farm_claim;
pub mod farm_settle;
pub mod fold;
pub mod fungible_token;
pub mod legacy;
pub mod liquidation;
pub mod nft_pool;
pub mod non_fungible_token;
pub mod pool;
pub mod price_receiver;
pub mod prices;
pub mod str_map;
pub mod text;
pub mod utils;
pub mod wide;

//! Small conversions shared by the rest of the ledger.

use crate::error::Error;
use crate::big_decimal::fit_u128;
use crate::pool::Balance;
use crate::wide::mul_div_u128;
use vstd::prelude::*;

verus! {

/// A point in time, in nanoseconds.
pub type Timestamp = u64;

/// A span of time, in milliseconds.
pub type Duration = u64;

/// A span of time, in seconds.
pub type DurationSec = u32;

/// The name of an account.
pub type AccountId = String;

/// The name of a token: the account of its contract.
pub type TokenId = String;

/// The account of a contract of non-fungible tokens.
pub type NFTContractId = String;

/// The name of a non-fungible token within its contract.
pub type NFTTokenId = String;

/// A contract of non-fungible tokens and a token of it, as one key.
pub type NFTContractTokenId = String;

/// Nanoseconds in a millisecond.
pub const NANOS_PER_MS: u64 = 1_000_000;

/// Nanoseconds in a second.
pub const NANOS_PER_SEC: u64 = 1_000_000_000;

/// What stands between the contract and the token in a key of both.
pub const NFT_DELIMETER: &'static str = "@";

/// The part `ratio / 10000` of a balance, rounded down.
pub open spec fn spec_ratio(balance: Balance, ratio: u32) -> Result<Balance, Error> {
    fit_u128(((balance as nat) * (ratio as nat)) / 10000)
}

/// The part `ratio / 10000` of a balance, rounded down.
pub fn ratio(balance: Balance, part: u32) -> (r: Result<Balance, Error>)
    ensures
        r == spec_ratio(balance, part),
{
    match mul_div_u128(balance, part as u128, 0, 10000) {
        Some(x) => Ok(x),
        None => Err(Error::Overflow),
    }
}

/// Whole milliseconds in a number of nanoseconds.
pub fn nano_to_ms(nano: u64) -> (r: Duration)
    ensures
        r == nano / NANOS_PER_MS,
{
    nano / NANOS_PER_MS
}

/// The nanoseconds that make up a number of milliseconds.
pub fn ms_to_nano(ms: Duration) -> (r: Timestamp)
    requires
        ms * NANOS_PER_MS <= u64::MAX,
    ensures
        r == ms * NANOS_PER_MS,
{
    ms * NANOS_PER_MS
}

/// The nanoseconds that make up a number of seconds.
pub fn to_nano(sec: DurationSec) -> (r: Timestamp)
    ensures
        r == sec * NANOS_PER_SEC,
{
    assert(sec * NANOS_PER_SEC <= u64::MAX) by (nonlinear_arith)
        requires
            sec <= u32::MAX,
            NANOS_PER_SEC == 1_000_000_000,
    ;
    (sec as u64) * NANOS_PER_SEC
}

/// The key under which an account holds a non-fungible token.
pub open spec fn spec_nft_key(contract: Seq<char>, token: Seq<char>) -> Seq<char> {
    contract + NFT_DELIMETER@ + token
}

/// The key under which an account holds a non-fungible token: the contract,
/// the delimiter and the token.
pub fn nft_contract_token_id(contract: &NFTContractId, token: &NFTTokenId) -> (r:
    NFTContractTokenId)
    ensures
        r@ == spec_nft_key(contract@, token@),
{
    let mut key = contract.clone();
    key.append(NFT_DELIMETER);
    key.append(token.as_str());
    key
}

} // verus!

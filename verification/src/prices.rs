//! The prices that the oracle gave for one call.

use crate::big_decimal::NUM_DECIMALS;
use crate::error::Error;
use crate::pool::Balance;
use crate::str_map::{lookup, Entries, StrMap};
use crate::utils::TokenId;
use vstd::prelude::*;

verus! {

/// The price of a token: `multiplier / 10^decimals` units of value for the
/// smallest unit of the token.
#[derive(Clone, Copy, Debug, PartialEq, Eq, Structural)]
pub struct Price {
    pub multiplier: Balance,
    pub decimals: u8,
}

/// Ten to the power `k`.
pub open spec fn pow10(k: nat) -> nat
    decreases k,
{
    if k == 0 {
        1
    } else {
        10 * pow10((k - 1) as nat)
    }
}

/// The mantissa of the value of `balance` at `price`, for a token whose
/// balances carry `extra_decimals` digits more than the token itself.
pub open spec fn spec_balance_value(balance: nat, price: Price, extra_decimals: u8) -> Result<
    nat,
    Error,
> {
    let decimals = price.decimals + extra_decimals;
    if decimals > u8::MAX {
        Err(Error::Overflow)
    } else if decimals > NUM_DECIMALS {
        Ok(((price.multiplier as nat) * balance) / pow10((decimals - NUM_DECIMALS) as nat))
    } else {
        Ok(((price.multiplier as nat) * balance) * pow10((NUM_DECIMALS - decimals) as nat))
    }
}

/// Powers of ten are positive and each is ten times the one before.
pub proof fn lemma_pow10_grows(k: nat)
    ensures
        pow10(k) >= 1,
        pow10(k + 1) == 10 * pow10(k),
    decreases k,
{
    if k > 0 {
        lemma_pow10_grows((k - 1) as nat);
    }
}

/// The power of a sum is the product of the powers.
pub proof fn lemma_pow10_adds(a: nat, b: nat)
    ensures
        pow10(a + b) == pow10(a) * pow10(b),
    decreases b,
{
    if b == 0 {
        assert(pow10(a) * 1 == pow10(a)) by (nonlinear_arith);
    } else {
        lemma_pow10_adds(a, (b - 1) as nat);
        let x = pow10(a);
        let y = pow10((b - 1) as nat);
        assert(10 * (x * y) == x * (10 * y)) by (nonlinear_arith);
        assert(a + b - 1 == a + (b - 1));
    }
}

/// Powers of ten grow with the exponent.
pub proof fn lemma_pow10_monotone(a: nat, b: nat)
    requires
        a <= b,
    ensures
        pow10(a) <= pow10(b),
    decreases b,
{
    if a < b {
        lemma_pow10_monotone(a, (b - 1) as nat);
        lemma_pow10_grows((b - 1) as nat);
    }
}

/// `10^k` for a `k` that keeps it a `u128`.
pub fn exp10(k: u8) -> (r: u128)
    requires
        k <= 38,
    ensures
        r == pow10(k as nat),
        r >= 1,
{
    let mut r: u128 = 1;
    let mut i: u8 = 0;
    proof {
        reveal_with_fuel(pow10, 39);
        assert(pow10(38) == 100_000_000_000_000_000_000_000_000_000_000_000_000u128);
        assert(1 * pow10(38) == pow10(38)) by (nonlinear_arith);
    }
    while i < k
        invariant
            i <= k <= 38,
            r == pow10(i as nat),
            r * pow10((38 - i) as nat) == 100_000_000_000_000_000_000_000_000_000_000_000_000u128,
        decreases k - i,
    {
        proof {
            lemma_pow10_grows(i as nat);
            lemma_pow10_grows((38 - i - 1) as nat);
            let rest = pow10((38 - i - 1) as nat);
            assert(r * (10 * rest) == (10 * r) * rest) by (nonlinear_arith);
            assert(10 * r <= (10 * r) * rest) by (nonlinear_arith)
                requires
                    rest >= 1,
            ;
        }
        r = r * 10;
        i += 1;
    }
    proof {
        lemma_pow10_grows(k as nat);
    }
    r
}

/// The prices of one call, by token.
pub struct Prices {
    pub prices: StrMap<Price>,
}

impl View for Prices {
    type V = Entries<Price>;

    open spec fn view(&self) -> Entries<Price> {
        self.prices@
    }
}

/// The price of `token_id` among `prices`, or the error for its absence.
pub open spec fn price_of(prices: Entries<Price>, token_id: Seq<char>) -> Result<Price, Error> {
    match lookup(prices, token_id) {
        Some(p) => Ok(p),
        None => Err(Error::MissingPrice),
    }
}

impl Prices {
    /// No prices at all.
    pub fn new() -> (r: Prices)
        ensures
            r@ == Seq::<(Seq<char>, Price)>::empty(),
    {
        Prices { prices: StrMap::new() }
    }

    /// The price of `token_id`, if one was given.
    pub fn get(&self, token_id: &TokenId) -> (r: Option<Price>)
        ensures
            r == lookup(self@, token_id@),
    {
        match self.prices.get(token_id) {
            Some(p) => Some(*p),
            None => None,
        }
    }

    /// The price of `token_id`; its absence is an error.
    pub fn get_unwrap(&self, token_id: &TokenId) -> (r: Result<Price, Error>)
        ensures
            r == price_of(self@, token_id@),
    {
        match self.prices.get(token_id) {
            Some(p) => Ok(*p),
            None => Err(Error::MissingPrice),
        }
    }
}

} // verus!

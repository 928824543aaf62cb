//! The share ledger of one side of an asset.
//!
//! A pool holds an amount of tokens and the number of shares that stand for
//! it.  Interest raises the amount and leaves the shares alone, so that each
//! share is worth more tokens over time.

use crate::big_decimal::fit_u128;
use crate::error::Error;
use crate::wide::mul_div_u128;
use vstd::arithmetic::div_mod::{
    lemma_div_is_ordered, lemma_div_multiples_vanish, lemma_fundamental_div_mod,
    lemma_mod_bound,
};
use vstd::prelude::*;

verus! {

/// An amount of tokens.
pub type Balance = u128;

/// A number of shares of a pool.
#[derive(Clone, Copy, Debug, PartialEq, Eq, Structural)]
pub struct Shares(pub u128);

/// `x / d`, rounded down or up.
pub open spec fn div_rounded(x: nat, d: nat, round_up: bool) -> nat {
    if round_up {
        ((x + d - 1) / (d as int)) as nat
    } else {
        x / d
    }
}

/// The shares that stand for `amount` in a pool of `pool_shares` shares and
/// `balance` tokens.  A pool without tokens trades one for one.
pub open spec fn spec_amount_to_shares(
    pool_shares: nat,
    balance: nat,
    amount: nat,
    round_up: bool,
) -> nat {
    if balance == 0 {
        amount
    } else {
        div_rounded(pool_shares * amount, balance, round_up)
    }
}

/// The amount that `shares` stand for in a pool of `pool_shares` shares and
/// `balance` tokens.  A pool without shares trades one for one.
pub open spec fn spec_shares_to_amount(
    pool_shares: nat,
    balance: nat,
    shares: nat,
    round_up: bool,
) -> nat {
    if pool_shares == 0 {
        shares
    } else {
        div_rounded(balance * shares, pool_shares, round_up)
    }
}

/// `m` as a number of shares, or the overflow that it causes.
pub open spec fn shares_of(m: nat) -> Result<Shares, Error> {
    if m <= u128::MAX {
        Ok(Shares(m as u128))
    } else {
        Err(Error::Overflow)
    }
}

/// One side, supplied or borrowed, of an asset.
#[derive(Clone, Copy, Debug, PartialEq, Eq, Structural)]
pub struct Pool {
    /// The shares that the accounts hold of this pool.
    pub shares: Shares,
    /// The tokens that the shares stand for.
    pub balance: Balance,
}

impl Pool {
    /// Shares are never left without an amount behind them.
    pub open spec fn sound(&self) -> bool {
        self.shares.0 > 0 ==> self.balance > 0
    }

    /// What `amount_to_shares` returns.
    pub open spec fn shares_for(&self, amount: Balance, round_up: bool) -> Result<Shares, Error> {
        shares_of(
            spec_amount_to_shares(
                self.shares.0 as nat,
                self.balance as nat,
                amount as nat,
                round_up,
            ),
        )
    }

    /// What `shares_to_amount` returns.
    pub open spec fn amount_for(&self, shares: Shares, round_up: bool) -> Result<Balance, Error> {
        fit_u128(
            spec_shares_to_amount(
                self.shares.0 as nat,
                self.balance as nat,
                shares.0 as nat,
                round_up,
            ),
        )
    }

    /// The pool after a deposit, or why it is refused.
    pub open spec fn after_deposit(&self, shares: Shares, amount: Balance) -> Result<Pool, Error> {
        if self.shares.0 + shares.0 > u128::MAX || self.balance + amount > u128::MAX {
            Err(Error::Overflow)
        } else {
            Ok(
                Pool {
                    shares: Shares((self.shares.0 + shares.0) as u128),
                    balance: (self.balance + amount) as u128,
                },
            )
        }
    }

    /// The pool after a withdrawal, or why it is refused.
    pub open spec fn after_withdraw(&self, shares: Shares, amount: Balance) -> Result<Pool, Error> {
        if self.shares.0 < shares.0 {
            Err(Error::NotEnoughShares)
        } else if self.balance < amount {
            Err(Error::NotEnoughBalance)
        } else {
            Ok(
                Pool {
                    shares: Shares((self.shares.0 - shares.0) as u128),
                    balance: (self.balance - amount) as u128,
                },
            )
        }
    }

    /// An empty pool.
    pub fn new() -> (r: Pool)
        ensures
            r == (Pool { shares: Shares(0), balance: 0 }),
    {
        Pool { shares: Shares(0), balance: 0 }
    }

    /// The shares that stand for `amount` at the pool's present rate.
    pub fn amount_to_shares(&self, amount: Balance, round_up: bool) -> (r: Result<Shares, Error>)
        ensures
            r == self.shares_for(amount, round_up),
    {
        if self.balance == 0 {
            return Ok(Shares(amount));
        }
        let extra: u128 = if round_up {
            self.balance - 1
        } else {
            0
        };
        match mul_div_u128(self.shares.0, amount, extra, self.balance) {
            Some(s) => Ok(Shares(s)),
            None => Err(Error::Overflow),
        }
    }

    /// The amount that `shares` stand for at the pool's present rate.
    pub fn shares_to_amount(&self, shares: Shares, round_up: bool) -> (r: Result<Balance, Error>)
        ensures
            r == self.amount_for(shares, round_up),
    {
        if self.shares.0 == 0 {
            return Ok(shares.0);
        }
        let extra: u128 = if round_up {
            self.shares.0 - 1
        } else {
            0
        };
        match mul_div_u128(self.balance, shares.0, extra, self.shares.0) {
            Some(a) => Ok(a),
            None => Err(Error::Overflow),
        }
    }

    /// Adds `shares` and `amount` to the pool.  A refused deposit leaves the
    /// pool as it was.
    pub fn deposit(&mut self, shares: Shares, amount: Balance) -> (r: Result<(), Error>)
        ensures
            match old(self).after_deposit(shares, amount) {
                Ok(p) => r is Ok && *final(self) == p,
                Err(e) => r == Err::<(), Error>(e) && *final(self) == *old(self),
            },
    {
        let new_shares = match self.shares.0.checked_add(shares.0) {
            Some(s) => s,
            None => {
                return Err(Error::Overflow);
            },
        };
        let new_balance = match self.balance.checked_add(amount) {
            Some(b) => b,
            None => {
                return Err(Error::Overflow);
            },
        };
        self.shares = Shares(new_shares);
        self.balance = new_balance;
        Ok(())
    }

    /// Takes `shares` and `amount` out of the pool.  A refused withdrawal
    /// leaves the pool as it was.
    pub fn withdraw(&mut self, shares: Shares, amount: Balance) -> (r: Result<(), Error>)
        ensures
            match old(self).after_withdraw(shares, amount) {
                Ok(p) => r is Ok && *final(self) == p,
                Err(e) => r == Err::<(), Error>(e) && *final(self) == *old(self),
            },
    {
        if self.shares.0 < shares.0 {
            return Err(Error::NotEnoughShares);
        }
        if self.balance < amount {
            return Err(Error::NotEnoughBalance);
        }
        self.shares = Shares(self.shares.0 - shares.0);
        self.balance = self.balance - amount;
        Ok(())
    }

    /// Rejects a pool that has shares and no amount behind them.
    pub fn assert_invariant(&self) -> (r: Result<(), Error>)
        ensures
            r is Ok <==> self.sound(),
            r is Err ==> r == Err::<(), Error>(Error::PoolInvariant),
    {
        if self.shares.0 > 0 && self.balance == 0 {
            Err(Error::PoolInvariant)
        } else {
            Ok(())
        }
    }
}

proof fn lemma_floor_times(x: nat, d: nat)
    requires
        d > 0,
    ensures
        (x / d) * d <= x,
        ((x + d - 1) / (d as int)) * d >= x,
{
    lemma_fundamental_div_mod(x as int, d as int);
    lemma_mod_bound(x as int, d as int);
    lemma_fundamental_div_mod(x + d - 1, d as int);
    lemma_mod_bound(x + d - 1, d as int);
    let q = x as int / d as int;
    let q2 = (x + d - 1) / (d as int);
    assert(q * d == d * q) by (nonlinear_arith);
    assert(q2 * d == d * q2) by (nonlinear_arith);
}

proof fn lemma_exact_quotient(x: nat, d: nat)
    requires
        d > 0,
    ensures
        (d * x) / d == x,
        ((d * x + d - 1) / (d as int)) == x,
{
    assert(d * x == x * d) by (nonlinear_arith);
    lemma_div_multiples_vanish(x as int, d as int);
    vstd::arithmetic::div_mod::lemma_fundamental_div_mod_converse(
        d * x + d - 1,
        d as int,
        x as int,
        d - 1,
    );
}

/// An amount turned into shares and back, both rounded down, never comes
/// back larger: whoever deposits and withdraws at once gains nothing.
pub proof fn lemma_amount_round_trip_down(pool_shares: nat, balance: nat, amount: nat)
    ensures
        spec_shares_to_amount(
            pool_shares,
            balance,
            spec_amount_to_shares(pool_shares, balance, amount, false),
            false,
        ) <= amount,
{
    if balance > 0 && pool_shares > 0 {
        let s = (pool_shares * amount) / balance;
        lemma_floor_times(pool_shares * amount, balance);
        assert(balance * s == s * balance) by (nonlinear_arith);
        lemma_div_is_ordered((balance * s) as int, (pool_shares * amount) as int, pool_shares as int);
        lemma_exact_quotient(amount, pool_shares);
    } else if pool_shares > 0 {
        assert(0 * amount == 0) by (nonlinear_arith);
        assert(balance * amount == 0) by (nonlinear_arith)
            requires
                balance == 0,
        ;
    } else if balance > 0 {
        assert(0 * amount == 0) by (nonlinear_arith);
        assert(pool_shares * amount == 0) by (nonlinear_arith)
            requires
                pool_shares == 0,
        ;
    }
}

/// An amount turned into shares and back, both rounded up, never comes back
/// smaller: whoever borrows and repays at once owes no less.  The pool must
/// not hold an amount without shares.
pub proof fn lemma_amount_round_trip_up(pool_shares: nat, balance: nat, amount: nat)
    requires
        pool_shares > 0 ==> balance > 0,
        balance > 0 ==> pool_shares > 0,
    ensures
        spec_shares_to_amount(
            pool_shares,
            balance,
            spec_amount_to_shares(pool_shares, balance, amount, true),
            true,
        ) >= amount,
{
    if balance > 0 {
        let s = ((pool_shares * amount + balance - 1) / (balance as int)) as nat;
        lemma_floor_times(pool_shares * amount, balance);
        assert(balance * s == s * balance) by (nonlinear_arith);
        lemma_div_is_ordered(
            pool_shares * amount + pool_shares - 1,
            balance * s + pool_shares - 1,
            pool_shares as int,
        );
        lemma_exact_quotient(amount, pool_shares);
    }
}

/// Shares turned into an amount and back, both rounded down, never come back
/// as more shares.
pub proof fn lemma_shares_round_trip_down(pool_shares: nat, balance: nat, shares: nat)
    ensures
        spec_amount_to_shares(
            pool_shares,
            balance,
            spec_shares_to_amount(pool_shares, balance, shares, false),
            false,
        ) <= shares,
{
    if balance > 0 && pool_shares > 0 {
        let a = (balance * shares) / pool_shares;
        lemma_floor_times(balance * shares, pool_shares);
        assert(pool_shares * a == a * pool_shares) by (nonlinear_arith);
        lemma_div_is_ordered((pool_shares * a) as int, (balance * shares) as int, balance as int);
        lemma_exact_quotient(shares, balance);
    } else if pool_shares > 0 {
        assert(balance * shares == 0) by (nonlinear_arith)
            requires
                balance == 0,
        ;
    } else if balance > 0 {
        assert(pool_shares * shares == 0) by (nonlinear_arith)
            requires
                pool_shares == 0,
        ;
    }
}

/// Shares turned into an amount and back, both rounded up, never come back
/// as fewer shares.  The pool must not hold an amount without shares.
pub proof fn lemma_shares_round_trip_up(pool_shares: nat, balance: nat, shares: nat)
    requires
        pool_shares > 0 ==> balance > 0,
        balance > 0 ==> pool_shares > 0,
    ensures
        spec_amount_to_shares(
            pool_shares,
            balance,
            spec_shares_to_amount(pool_shares, balance, shares, true),
            true,
        ) >= shares,
{
    if balance > 0 {
        let a = ((balance * shares + pool_shares - 1) / (pool_shares as int)) as nat;
        lemma_floor_times(balance * shares, pool_shares);
        assert(pool_shares * a == a * pool_shares) by (nonlinear_arith);
        lemma_div_is_ordered(
            balance * shares + balance - 1,
            pool_shares * a + balance - 1,
            balance as int,
        );
        lemma_exact_quotient(shares, balance);
    }
}

/// Whether a share of the pool `after` stands for at least as much as a
/// share of the pool `before` did.
pub open spec fn rate_not_lower(before: Pool, after: Pool) -> bool {
    before.balance * after.shares.0 <= after.balance * before.shares.0
}

/// A deposit at the pool's rate, with the shares rounded down, does not
/// lower what a share stands for.
pub proof fn lemma_deposit_keeps_rate(pool: Pool, amount: Balance)
    requires
        pool.balance > 0,
    ensures
        pool.shares_for(amount, false) matches Ok(shares) ==> (pool.after_deposit(
            shares,
            amount,
        ) matches Ok(after) ==> rate_not_lower(pool, after)),
{
    let s = pool.shares.0 as nat;
    let b = pool.balance as nat;
    let a = amount as nat;
    let minted = (s * a) / b;
    lemma_floor_times(s * a, b);
    assert(b * (s + minted) <= (b + a) * s) by (nonlinear_arith)
        requires
            minted * b <= s * a,
    ;
}

/// A withdrawal at the pool's rate, with the shares rounded up, does not
/// lower what a share stands for.
pub proof fn lemma_withdraw_keeps_rate(pool: Pool, amount: Balance)
    requires
        pool.balance > 0,
    ensures
        pool.shares_for(amount, true) matches Ok(shares) ==> (pool.after_withdraw(
            shares,
            amount,
        ) matches Ok(after) ==> rate_not_lower(pool, after)),
{
    let s = pool.shares.0 as nat;
    let b = pool.balance as nat;
    let a = amount as nat;
    let burnt = ((s * a + b - 1) / (b as int)) as nat;
    lemma_floor_times(s * a, b);
    if burnt <= s && a <= b {
        assert(b * (s - burnt) <= (b - a) * s) by (nonlinear_arith)
            requires
                burnt * b >= s * a,
                burnt <= s,
                a <= b,
        ;
    }
}

} // verus!

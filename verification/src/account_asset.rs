//! An account's supplied position in one token.

use crate::error::Error;
use crate::pool::Shares;
use vstd::prelude::*;

verus! {

/// The shares that an account holds of an asset's supplied pool.
#[derive(Clone, Copy, Debug, PartialEq, Eq, Structural)]
pub struct AccountAsset {
    pub shares: Shares,
}

impl AccountAsset {
    /// The position after a deposit of shares.
    pub open spec fn after_deposit(&self, shares: Shares) -> Result<AccountAsset, Error> {
        if self.shares.0 + shares.0 > u128::MAX {
            Err(Error::Overflow)
        } else {
            Ok(AccountAsset { shares: Shares((self.shares.0 + shares.0) as u128) })
        }
    }

    /// The position after a withdrawal of shares.
    pub open spec fn after_withdraw(&self, shares: Shares) -> Result<AccountAsset, Error> {
        if self.shares.0 < shares.0 {
            Err(Error::NotEnoughSupplied)
        } else {
            Ok(AccountAsset { shares: Shares((self.shares.0 - shares.0) as u128) })
        }
    }

    /// A position without shares.
    pub fn new() -> (r: AccountAsset)
        ensures
            r.shares.0 == 0,
    {
        AccountAsset { shares: Shares(0) }
    }

    /// Adds shares.  A refused call leaves the position as it was.
    pub fn deposit_shares(&mut self, shares: Shares) -> (r: Result<(), Error>)
        ensures
            match old(self).after_deposit(shares) {
                Ok(a) => r is Ok && *final(self) == a,
                Err(e) => r == Err::<(), Error>(e) && *final(self) == *old(self),
            },
    {
        match self.shares.0.checked_add(shares.0) {
            Some(s) => {
                self.shares = Shares(s);
                Ok(())
            },
            None => Err(Error::Overflow),
        }
    }

    /// Takes shares away.  A refused call leaves the position as it was.
    pub fn withdraw_shares(&mut self, shares: Shares) -> (r: Result<(), Error>)
        ensures
            match old(self).after_withdraw(shares) {
                Ok(a) => r is Ok && *final(self) == a,
                Err(e) => r == Err::<(), Error>(e) && *final(self) == *old(self),
            },
    {
        if self.shares.0 < shares.0 {
            Err(Error::NotEnoughSupplied)
        } else {
            self.shares = Shares(self.shares.0 - shares.0);
            Ok(())
        }
    }

    /// Whether the position holds no shares.
    pub fn is_empty(&self) -> (r: bool)
        ensures
            r == (self.shares.0 == 0),
    {
        self.shares.0 == 0
    }
}

} // verus!

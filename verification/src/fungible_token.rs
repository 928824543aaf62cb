//! Amounts of a token on their way into the ledger and out of it.
//!
//! The ledger keeps the balances of every token with the same number of
//! decimals: an asset's balances carry `extra_decimals` digits more than
//! the token itself.

use crate::account::{Account, AccountModel};
use crate::account_farm::{FarmId, FarmKey};
use crate::asset::{Asset, AssetModel};
use crate::big_decimal::fit_u128;
use crate::contract::{Contract, ContractModel};
use crate::error::Error;
use crate::events::emit;
use crate::events::{Event, EventView};
use crate::execute::amount_event;
use crate::pool::Balance;
use crate::prices::{exp10, lemma_pow10_monotone, pow10};
use crate::utils::TokenId;
use vstd::prelude::*;

verus! {

impl AssetModel {
    /// An amount of the token in the ledger's units.
    pub open spec fn internal_amount(self, amount: Balance) -> Result<Balance, Error> {
        fit_u128((amount as nat) * pow10(self.config.extra_decimals as nat))
    }

    /// An amount of the ledger's units in the token's own: what does not
    /// make a unit of the token is cut off.
    pub open spec fn token_amount(self, amount: Balance) -> Balance {
        ((amount as nat) / pow10(self.config.extra_decimals as nat)) as u128
    }
}

proof fn lemma_pow10_39()
    ensures
        pow10(39) > u128::MAX,
        pow10(38) == 100_000_000_000_000_000_000_000_000_000_000_000_000u128,
{
    reveal_with_fuel(pow10, 40);
}

impl Asset {
    /// An amount of the token in the ledger's units.
    pub fn amount_to_internal(&self, amount: Balance) -> (r: Result<Balance, Error>)
        ensures
            r == self@.internal_amount(amount),
    {
        let k = self.config.extra_decimals;
        if amount == 0 {
            assert(0 * pow10(k as nat) == 0) by (nonlinear_arith);
            return Ok(0);
        }
        if k > 38 {
            proof {
                lemma_pow10_39();
                lemma_pow10_monotone(39, k as nat);
                let p = pow10(k as nat);
                assert((amount as nat) * p >= p) by (nonlinear_arith)
                    requires
                        amount >= 1,
                ;
            }
            return Err(Error::Overflow);
        }
        match amount.checked_mul(exp10(k)) {
            Some(x) => Ok(x),
            None => Err(Error::Overflow),
        }
    }

    /// An amount of the ledger's units in the token's own.
    pub fn amount_from_internal(&self, amount: Balance) -> (r: Balance)
        ensures
            r == self@.token_amount(amount),
    {
        let k = self.config.extra_decimals;
        if k > 38 {
            proof {
                lemma_pow10_39();
                lemma_pow10_monotone(39, k as nat);
                vstd::arithmetic::div_mod::lemma_basic_div(amount as int, pow10(k as nat) as int);
            }
            0
        } else {
            amount / exp10(k)
        }
    }
}

impl ContractModel {
    /// The ledger after `amount` of the ledger's units went into the
    /// reserve of the asset of `token_id`.
    pub open spec fn reserve_raised(self, token_id: Seq<char>, amount: Balance) -> Result<
        ContractModel,
        Error,
    > {
        match self.asset(token_id) {
            Err(e) => Err(e),
            Ok(asset) => if !asset.config.can_deposit {
                Err(Error::DepositDisabled)
            } else if asset.reserved + amount > u128::MAX {
                Err(Error::Overflow)
            } else {
                self.with_asset(
                    token_id,
                    AssetModel { reserved: (asset.reserved + amount) as u128, ..asset },
                )
            },
        }
    }
}

impl Contract {
    /// Adds `amount` of the ledger's units to the reserve of the asset of
    /// `token_id`.  A refused call leaves the ledger as it was.
    pub fn deposit_to_reserve(&mut self, token_id: &TokenId, amount: Balance) -> (r: Result<
        (),
        Error,
    >)
        ensures
            match old(self)@.reserve_raised(token_id@, amount) {
                Ok(c) => r is Ok && final(self)@ == c,
                Err(e) => r == Err::<(), Error>(e) && final(self)@ == old(self)@,
            },
    {
        let mut asset = self.internal_unwrap_asset(token_id)?;
        if !asset.config.can_deposit {
            return Err(Error::DepositDisabled);
        }
        asset.reserved = match asset.reserved.checked_add(amount) {
            Some(x) => x,
            None => {
                return Err(Error::Overflow);
            },
        };
        self.internal_set_asset(token_id, asset)
    }
}

impl ContractModel {
    /// The ledger and the account after the account sent `amount` of the
    /// token's own units to the ledger, and the amount in the ledger's
    /// units: the amount is supplied, and the farm of the position is
    /// marked.
    pub open spec fn tokens_received(self, account: AccountModel, token_id: Seq<char>, amount: Balance) -> Result<
        (ContractModel, AccountModel, Balance),
        Error,
    > {
        match self.asset(token_id) {
            Err(e) => Err(e),
            Ok(asset) => if !asset.config.can_deposit {
                Err(Error::DepositDisabled)
            } else {
                match asset.internal_amount(amount) {
                    Err(e) => Err(e),
                    Ok(internal) => match self.deposited(
                        account.with_affected_farm(FarmKey::Supplied(token_id)),
                        token_id,
                        internal,
                    ) {
                        Err(e) => Err(e),
                        Ok((c, a, shares)) => Ok((c, a, internal)),
                    },
                }
            },
        }
    }
}

impl Contract {
    /// Takes `amount` of the token's own units that the account sent to the
    /// ledger: supplies it to the account, and marks the farm of the
    /// position.  Returns the event of the deposit.  A refused call leaves
    /// everything as it was.
    pub fn internal_ft_on_transfer(&mut self, account: &mut Account, token_id: &TokenId, amount: Balance) -> (r:
        Result<Event, Error>)
        ensures
            match old(self)@.tokens_received(old(account)@, token_id@, amount) {
                Ok((c, a, internal)) => r matches Ok(event) && event@ == amount_event(
                    "deposit"@,
                    old(account)@.account_id,
                    internal,
                    token_id@,
                ) && final(self)@ == c && final(account)@ == a,
                Err(e) => r matches Err(e2) && e2 == e && final(self)@ == old(self)@ && final(
                    account)@ == old(account)@,
            },
    {
        proof {
            reveal_strlit("deposit");
        }
        let asset = self.internal_unwrap_asset(token_id)?;
        if !asset.config.can_deposit {
            return Err(Error::DepositDisabled);
        }
        let internal = asset.amount_to_internal(amount)?;
        let mut staged = account.clone();
        staged.add_affected_farm(FarmId::Supplied(token_id.clone()));
        self.internal_deposit(&mut staged, token_id, internal)?;
        let event = emit::deposit(&account.account_id, internal, token_id);
        *account = staged;
        Ok(event)
    }
}

} // verus!

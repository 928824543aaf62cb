//! One asset of the ledger: what was supplied of it, what was borrowed, and
//! the interest that the debt has earned.

use crate::asset_config::{lemma_rate_at_least_one, spec_rate, AssetConfig};
use crate::big_decimal::{
    fit_u128, lemma_mul_round_monotone, lemma_pow_monotone, mantissa_of, round_mul, spec_div_u128,
    spec_pow, spec_sub, BigDecimal, BIG_DIVISOR, MAX_RATIO,
};
use crate::error::Error;
use crate::nft_pool::{holds_token, lemma_token_position, token_position, NftPool};
use crate::pool::{Balance, Pool, Shares};
use crate::utils::{
    ms_to_nano, nano_to_ms, ratio, spec_ratio, AccountId, Duration, NFTTokenId, Timestamp,
    NANOS_PER_MS,
};
use vstd::prelude::*;

verus! {

/// Milliseconds in a year of 365 days.
pub const MS_PER_YEAR: u64 = 31536000000;

/// One asset: its two pools, its reserve, and its parameters.
#[derive(Debug)]
pub struct Asset {
    /// What the accounts have supplied, without the reserve.
    pub supplied: Pool,
    /// What the accounts have borrowed.
    pub borrowed: Pool,
    /// The non-fungible tokens held as collateral.
    pub nft_supplied: Vec<NftPool>,
    /// What the ledger itself holds of the asset.  It can be borrowed too.
    pub reserved: Balance,
    /// The time up to which interest has been added.
    pub last_update_timestamp: Timestamp,
    /// The asset's parameters.
    pub config: AssetConfig,
}

/// An asset as the contracts see it.
pub struct AssetModel {
    pub supplied: Pool,
    pub borrowed: Pool,
    pub nft_supplied: Seq<NftPool>,
    pub reserved: Balance,
    pub last_update_timestamp: Timestamp,
    pub config: AssetConfig,
}

impl View for Asset {
    type V = AssetModel;

    open spec fn view(&self) -> AssetModel {
        AssetModel {
            supplied: self.supplied,
            borrowed: self.borrowed,
            nft_supplied: self.nft_supplied@,
            reserved: self.reserved,
            last_update_timestamp: self.last_update_timestamp,
            config: self.config,
        }
    }
}

/// The pool of tokens after `token_id` was given to `owner_id`: a token
/// already in the pool keeps the time of its deposit and moves to the end.
pub open spec fn with_nft(
    pool: Seq<NftPool>,
    owner_id: AccountId,
    token_id: NFTTokenId,
    timestamp: Timestamp,
) -> Seq<NftPool> {
    if holds_token(pool, token_id@) {
        let p = token_position(pool, token_id@);
        pool.remove(p).push(
            NftPool { owner_id, token_id, deposit_timestamp: pool[p].deposit_timestamp },
        )
    } else {
        pool.push(NftPool { owner_id, token_id, deposit_timestamp: timestamp })
    }
}

/// The pool of tokens without `token_id`.
pub open spec fn without_nft(pool: Seq<NftPool>, token_id: Seq<char>) -> Seq<NftPool> {
    if holds_token(pool, token_id) {
        pool.remove(token_position(pool, token_id))
    } else {
        pool
    }
}

impl AssetModel {
    /// What can be lent: the supplied amount and the reserve.
    pub open spec fn total(self) -> nat {
        (self.supplied.balance + self.reserved) as nat
    }

    /// Nothing more is lent out than the asset holds.
    pub open spec fn solvent(self) -> bool {
        self.borrowed.balance <= self.total()
    }

    /// The debt's growth per millisecond at the present utilization.
    pub open spec fn rate(self) -> Result<nat, Error> {
        if self.total() > u128::MAX {
            Err(Error::Overflow)
        } else {
            spec_rate(self.config, self.borrowed.balance as nat, self.total())
        }
    }

    /// The debt's growth over a year, less one.
    pub open spec fn borrow_apr(self) -> Result<nat, Error> {
        match self.rate() {
            Err(e) => Err(e),
            Ok(rate) => match spec_pow(rate, MS_PER_YEAR as nat) {
                Err(e) => Err(e),
                Ok(growth) => spec_sub(growth, BIG_DIVISOR as nat),
            },
        }
    }

    /// What the suppliers earn over a year on each token: the borrowers'
    /// interest, less the reserve's part, spread over what was supplied.
    pub open spec fn supply_apr(self) -> Result<nat, Error> {
        if self.supplied.balance == 0 || self.borrowed.balance == 0 {
            Ok(0)
        } else {
            match self.borrow_apr() {
                Err(e) => Err(e),
                Ok(apr) => if apr == 0 {
                    Ok(0)
                } else {
                    match fit_u128(round_mul(apr, self.borrowed.balance as nat)) {
                        Err(e) => Err(e),
                        Ok(interest) => if self.config.reserve_ratio > MAX_RATIO {
                            Err(Error::InvalidConfig)
                        } else {
                            match spec_ratio(
                                interest,
                                (MAX_RATIO - self.config.reserve_ratio) as u32,
                            ) {
                                Err(e) => Err(e),
                                Ok(part) => spec_div_u128(
                                    (part as nat) * (BIG_DIVISOR as nat),
                                    self.supplied.balance as nat,
                                ),
                            }
                        },
                    }
                },
            }
        }
    }

    /// What is left to lend or to pay out.
    pub open spec fn available(self) -> Result<Balance, Error> {
        if self.total() > u128::MAX {
            Err(Error::Overflow)
        } else if self.borrowed.balance > self.total() {
            Err(Error::Insolvent)
        } else {
            Ok((self.total() - self.borrowed.balance) as u128)
        }
    }

    /// The asset after `elapsed` milliseconds of interest: the debt grows by
    /// the rate raised to `elapsed`; of the growth the reserve takes its
    /// ratio and the suppliers the rest, or the reserve everything where
    /// nobody holds a share.
    pub open spec fn compounded(self, elapsed: nat) -> Result<AssetModel, Error> {
        match self.rate() {
            Err(e) => Err(e),
            Ok(rate) => match spec_pow(rate, elapsed) {
                Err(e) => Err(e),
                Ok(growth) => match fit_u128(round_mul(growth, self.borrowed.balance as nat)) {
                    Err(e) => Err(e),
                    Ok(grown) => if grown < self.borrowed.balance {
                        Err(Error::Overflow)
                    } else {
                        let interest = (grown - self.borrowed.balance) as u128;
                        match spec_ratio(interest, self.config.reserve_ratio) {
                            Err(e) => Err(e),
                            Ok(kept) => if kept > interest {
                                Err(Error::Overflow)
                            } else {
                                let to_supplied = if self.supplied.shares.0 > 0 {
                                    (interest - kept) as u128
                                } else {
                                    0
                                };
                                let to_reserve = if self.supplied.shares.0 > 0 {
                                    kept
                                } else {
                                    interest
                                };
                                if self.supplied.balance + to_supplied > u128::MAX
                                    || self.reserved + to_reserve > u128::MAX {
                                    Err(Error::Overflow)
                                } else {
                                    Ok(
                                        AssetModel {
                                            supplied: Pool {
                                                shares: self.supplied.shares,
                                                balance: (self.supplied.balance
                                                    + to_supplied) as u128,
                                            },
                                            borrowed: Pool {
                                                shares: self.borrowed.shares,
                                                balance: grown,
                                            },
                                            reserved: (self.reserved + to_reserve) as u128,
                                            ..self
                                        },
                                    )
                                }
                            },
                        }
                    },
                },
            }
        }
    }

    /// The asset brought up to the time `now`: interest is added for the
    /// whole milliseconds since the last update, and the rest of the time is
    /// left for the next one.
    pub open spec fn updated(self, now: Timestamp) -> Result<AssetModel, Error> {
        if now < self.last_update_timestamp {
            Err(Error::ClockWentBack)
        } else {
            let elapsed = ((now - self.last_update_timestamp) / (NANOS_PER_MS as int)) as nat;
            if elapsed == 0 {
                Ok(self)
            } else {
                match self.compounded(elapsed) {
                    Err(e) => Err(e),
                    Ok(a) => Ok(
                        AssetModel {
                            last_update_timestamp: (self.last_update_timestamp + elapsed
                                * NANOS_PER_MS) as u64,
                            ..a
                        },
                    ),
                }
            }
        }
    }

    /// The asset as it is stored: an amount that no share stands for goes
    /// to the reserve, and an asset whose pools are unsound is refused.
    pub open spec fn settled(self) -> Result<AssetModel, Error> {
        let swept = if self.supplied.shares.0 == 0 && self.supplied.balance > 0 {
            AssetModel {
                supplied: Pool { shares: self.supplied.shares, balance: 0 },
                reserved: (self.reserved + self.supplied.balance) as u128,
                ..self
            }
        } else {
            self
        };
        if self.supplied.shares.0 == 0 && self.reserved + self.supplied.balance > u128::MAX {
            Err(Error::Overflow)
        } else if swept.borrowed.shares.0 == 0 && swept.borrowed.balance > 0 {
            Err(Error::BorrowedInvariant)
        } else if !swept.supplied.sound() || !swept.borrowed.sound() {
            Err(Error::PoolInvariant)
        } else {
            Ok(swept)
        }
    }
}

impl Clone for Asset {
    fn clone(&self) -> (r: Self)
        ensures
            r@ == self@,
    {
        let nfts = self.nft_supplied.clone();
        assert(nfts@ =~= self.nft_supplied@);
        Asset {
            supplied: self.supplied,
            borrowed: self.borrowed,
            nft_supplied: nfts,
            reserved: self.reserved,
            last_update_timestamp: self.last_update_timestamp,
            config: self.config,
        }
    }
}

impl Asset {
    /// An asset that nobody has touched yet.
    pub fn new(timestamp: Timestamp, config: AssetConfig) -> (r: Asset)
        ensures
            r@ == (AssetModel {
                supplied: Pool { shares: Shares(0), balance: 0 },
                borrowed: Pool { shares: Shares(0), balance: 0 },
                nft_supplied: Seq::<NftPool>::empty(),
                reserved: 0,
                last_update_timestamp: timestamp,
                config,
            }),
    {
        Asset {
            supplied: Pool::new(),
            borrowed: Pool::new(),
            nft_supplied: Vec::new(),
            reserved: 0,
            last_update_timestamp: timestamp,
            config,
        }
    }

    /// The debt's growth per millisecond at the present utilization.
    pub fn get_rate(&self) -> (r: Result<BigDecimal, Error>)
        ensures
            mantissa_of(r) == self@.rate(),
    {
        match self.supplied.balance.checked_add(self.reserved) {
            Some(total) => self.config.get_rate(self.borrowed.balance, total),
            None => Err(Error::Overflow),
        }
    }

    /// The debt's growth over a year, less one.
    pub fn get_borrow_apr(&self) -> (r: Result<BigDecimal, Error>)
        ensures
            mantissa_of(r) == self@.borrow_apr(),
    {
        let rate = self.get_rate()?;
        let growth = rate.pow(MS_PER_YEAR)?;
        growth.checked_sub(&BigDecimal::one())
    }

    /// What the suppliers earn over a year on each token.
    pub fn get_supply_apr(&self) -> (r: Result<BigDecimal, Error>)
        ensures
            mantissa_of(r) == self@.supply_apr(),
    {
        if self.supplied.balance == 0 || self.borrowed.balance == 0 {
            return Ok(BigDecimal::zero());
        }
        let borrow_apr = self.get_borrow_apr()?;
        if borrow_apr.is_zero() {
            return Ok(borrow_apr);
        }
        let interest = borrow_apr.round_mul_u128(self.borrowed.balance)?;
        if self.config.reserve_ratio > MAX_RATIO {
            return Err(Error::InvalidConfig);
        }
        let supply_interest = ratio(interest, MAX_RATIO - self.config.reserve_ratio)?;
        BigDecimal::from_u128(supply_interest).div_u128(self.supplied.balance)
    }

    /// Adds the interest of `time_diff_ms` milliseconds.  A refused call
    /// leaves the asset as it was.
    pub fn compound(&mut self, time_diff_ms: Duration) -> (r: Result<(), Error>)
        ensures
            match old(self)@.compounded(time_diff_ms as nat) {
                Ok(v) => r is Ok && final(self)@ == v,
                Err(e) => r == Err::<(), Error>(e) && *final(self) == *old(self),
            },
    {
        let rate = self.get_rate()?;
        let growth = rate.pow(time_diff_ms)?;
        let grown = growth.round_mul_u128(self.borrowed.balance)?;
        if grown < self.borrowed.balance {
            return Err(Error::Overflow);
        }
        let interest = grown - self.borrowed.balance;
        let kept = ratio(interest, self.config.reserve_ratio)?;
        if kept > interest {
            return Err(Error::Overflow);
        }
        let to_supplied = if self.supplied.shares.0 > 0 {
            interest - kept
        } else {
            0
        };
        let to_reserve = if self.supplied.shares.0 > 0 {
            kept
        } else {
            interest
        };
        let new_supplied = match self.supplied.balance.checked_add(to_supplied) {
            Some(x) => x,
            None => {
                return Err(Error::Overflow);
            },
        };
        let new_reserved = match self.reserved.checked_add(to_reserve) {
            Some(x) => x,
            None => {
                return Err(Error::Overflow);
            },
        };
        self.supplied.balance = new_supplied;
        self.reserved = new_reserved;
        self.borrowed.balance = grown;
        Ok(())
    }

    /// Brings the asset up to the time `timestamp`.  A refused call leaves
    /// the asset as it was.
    pub fn update(&mut self, timestamp: Timestamp) -> (r: Result<(), Error>)
        ensures
            match old(self)@.updated(timestamp) {
                Ok(v) => r is Ok && final(self)@ == v,
                Err(e) => r == Err::<(), Error>(e) && *final(self) == *old(self),
            },
    {
        if timestamp < self.last_update_timestamp {
            return Err(Error::ClockWentBack);
        }
        let time_diff_ms = nano_to_ms(timestamp - self.last_update_timestamp);
        if time_diff_ms > 0 {
            self.compound(time_diff_ms)?;
            self.last_update_timestamp = self.last_update_timestamp + ms_to_nano(time_diff_ms);
        }
        Ok(())
    }

    /// What is left to lend or to pay out.
    pub fn available_amount(&self) -> (r: Result<Balance, Error>)
        ensures
            r == self@.available(),
    {
        match self.supplied.balance.checked_add(self.reserved) {
            None => Err(Error::Overflow),
            Some(total) => if self.borrowed.balance > total {
                Err(Error::Insolvent)
            } else {
                Ok(total - self.borrowed.balance)
            },
        }
    }

    /// Prepares the asset for storing: sweeps an amount that no share stands
    /// for into the reserve, and refuses an asset whose pools are unsound.
    /// A refused call leaves the asset as it was.
    pub fn settle(&mut self) -> (r: Result<(), Error>)
        ensures
            match old(self)@.settled() {
                Ok(v) => r is Ok && final(self)@ == v,
                Err(e) => r == Err::<(), Error>(e) && *final(self) == *old(self),
            },
    {
        let sweep = self.supplied.shares.0 == 0 && self.supplied.balance > 0;
        let mut new_reserved = self.reserved;
        if self.supplied.shares.0 == 0 {
            new_reserved = match self.reserved.checked_add(self.supplied.balance) {
                Some(x) => x,
                None => {
                    return Err(Error::Overflow);
                },
            };
        }
        if self.borrowed.shares.0 == 0 && self.borrowed.balance > 0 {
            return Err(Error::BorrowedInvariant);
        }
        if self.supplied.shares.0 > 0 && self.supplied.balance == 0 {
            return Err(Error::PoolInvariant);
        }
        if self.borrowed.shares.0 > 0 && self.borrowed.balance == 0 {
            return Err(Error::PoolInvariant);
        }
        if sweep {
            self.reserved = new_reserved;
            self.supplied.balance = 0;
        }
        Ok(())
    }

    /// The first place in the pool of tokens of a token named `token_id`.
    pub fn nft_position(&self, token_id: &NFTTokenId) -> (r: Option<usize>)
        ensures
            match r {
                Some(i) => holds_token(self.nft_supplied@, token_id@) && i == token_position(
                    self.nft_supplied@,
                    token_id@,
                ) && i < self.nft_supplied@.len(),
                None => !holds_token(self.nft_supplied@, token_id@),
            },
    {
        let mut i: usize = 0;
        while i < self.nft_supplied.len()
            invariant
                i <= self.nft_supplied.len(),
                forall|j: int| 0 <= j < i ==> (#[trigger] self.nft_supplied@[j]).token_id@ != token_id@,
            decreases self.nft_supplied.len() - i,
        {
            if self.nft_supplied[i].token_id == *token_id {
                proof {
                    lemma_token_position(self.nft_supplied@, token_id@);
                    assert(self.nft_supplied@[i as int].token_id@ == token_id@);
                }
                return Some(i);
            }
            i += 1;
        }
        proof {
            lemma_token_position(self.nft_supplied@, token_id@);
        }
        None
    }

    /// The owner of the token `token_id` in the pool of tokens of `asset`.
    pub fn get_owner_nft(&self, token_id: &NFTTokenId, asset: &Asset) -> (r: Option<AccountId>)
        ensures
            match r {
                Some(owner) => holds_token(asset.nft_supplied@, token_id@) && owner
                    == asset.nft_supplied@[token_position(asset.nft_supplied@, token_id@)].owner_id,
                None => !holds_token(asset.nft_supplied@, token_id@),
            },
    {
        match asset.nft_position(token_id) {
            Some(i) => Some(asset.nft_supplied[i].owner_id.clone()),
            None => None,
        }
    }

    /// Gives the token `token_id` to `owner_id`.  A token already in the
    /// pool keeps the time of its deposit; a new one gets `timestamp`.
    pub fn put_nft(&mut self, owner_id: AccountId, token_id: NFTTokenId, timestamp: Timestamp)
        ensures
            final(self)@ == (AssetModel {
                nft_supplied: with_nft(old(self)@.nft_supplied, owner_id, token_id, timestamp),
                ..old(self)@
            }),
    {
        let mut deposit_timestamp = timestamp;
        match self.nft_position(&token_id) {
            Some(i) => {
                deposit_timestamp = self.nft_supplied[i].deposit_timestamp;
                self.nft_supplied.remove(i);
            },
            None => {},
        }
        self.nft_supplied.push(NftPool { owner_id, token_id, deposit_timestamp });
    }

    /// Takes the token `token_id` out of the pool of tokens.
    pub fn take_nft(&mut self, token_id: &NFTTokenId)
        ensures
            final(self)@ == (AssetModel {
                nft_supplied: without_nft(old(self)@.nft_supplied, token_id@),
                ..old(self)@
            }),
    {
        match self.nft_position(token_id) {
            Some(i) => {
                self.nft_supplied.remove(i);
            },
            None => {},
        }
    }
}

/// Interest never runs backwards: of two spans of time, the longer leaves no
/// smaller a debt on the same asset, and neither leaves less than there was.
pub proof fn lemma_compound_monotone(asset: AssetModel, shorter: nat, longer: nat)
    requires
        asset.config.growing(),
        shorter <= longer,
    ensures
        asset.compounded(shorter) matches Ok(a) ==> a.borrowed.balance >= asset.borrowed.balance
            && (asset.compounded(longer) matches Ok(b) ==> a.borrowed.balance
            <= b.borrowed.balance),
{
    if asset.rate() is Ok {
        let rate = asset.rate()->Ok_0;
        lemma_rate_at_least_one(asset.config, asset.borrowed.balance as nat, asset.total());
        lemma_pow_monotone(rate, shorter, longer);
        lemma_pow_monotone(rate, longer, longer);
        if spec_pow(rate, shorter) is Ok {
            let g1 = spec_pow(rate, shorter)->Ok_0;
            crate::big_decimal::lemma_mul_round_at_least(asset.borrowed.balance as nat, g1);
            if spec_pow(rate, longer) is Ok {
                let g2 = spec_pow(rate, longer)->Ok_0;
                lemma_mul_round_monotone(g1, g2, asset.borrowed.balance as nat);
            }
        }
    }
}

/// Interest keeps an asset solvent: what the debt gains, the suppliers and
/// the reserve gain between them.
pub proof fn lemma_compound_solvent(asset: AssetModel, elapsed: nat)
    requires
        asset.solvent(),
    ensures
        asset.compounded(elapsed) matches Ok(a) ==> a.solvent(),
{
}

/// Bringing an asset up to date keeps it solvent.
pub proof fn lemma_update_solvent(asset: AssetModel, now: Timestamp)
    requires
        asset.solvent(),
    ensures
        asset.updated(now) matches Ok(a) ==> a.solvent(),
{
    if now >= asset.last_update_timestamp {
        let elapsed = ((now - asset.last_update_timestamp) / (NANOS_PER_MS as int)) as nat;
        lemma_compound_solvent(asset, elapsed);
    }
}

/// Settling an asset keeps it solvent: what is swept stays in the asset.
pub proof fn lemma_settle_solvent(asset: AssetModel)
    requires
        asset.solvent(),
    ensures
        asset.settled() matches Ok(a) ==> a.solvent(),
{
}

} // verus!

//! The booster tokens that an account has staked.
//!
//! An account can lock booster tokens that it has supplied for a time of
//! its choice.  The longer the time, the more the stake counts in the
//! farms: for the shortest time it counts as it is, for the longest it
//! counts as many times as the ledger's configuration says.

use crate::account::{insert_farm, with_farm, Account, AccountModel};
use crate::actions::{lemma_asset_solvent, lemma_deposit_keeps_solvent, lemma_with_asset_solvent};
use crate::account_farm::{AccountFarmModel, FarmKey};
use crate::asset::AssetModel;
use crate::config::Config;
use crate::contract::{Contract, ContractModel};
use crate::error::Error;
use crate::pool::{Balance, Shares};
use crate::utils::{to_nano, DurationSec, Timestamp, NANOS_PER_SEC};
use crate::wide::mul_div_u128;
use vstd::prelude::*;

verus! {

/// The multiplier, in 1/10000, of a stake of the shortest time.
pub const MIN_BOOSTER_MULTIPLIER: u32 = 10000;

/// An account's stake of booster tokens.
#[derive(Clone, Copy, Debug, PartialEq, Eq, Structural)]
pub struct BoosterStaking {
    /// The booster tokens staked.
    pub staked_booster_amount: Balance,
    /// The boost that the stake earns.
    pub x_booster_amount: Balance,
    /// When the stake can be taken back.
    pub unlock_timestamp: Timestamp,
}

/// What `amount` booster tokens count for when they are staked for
/// `duration_ns` nanoseconds: the amount itself for the shortest time, and
/// more in proportion to the time beyond it, up to the configured multiple
/// for the longest.
pub open spec fn spec_x_booster_amount(config: Config, amount: Balance, duration_ns: nat) -> Result<
    Balance,
    Error,
> {
    let shortest = config.minimum_staking_duration_sec * NANOS_PER_SEC;
    if config.x_booster_multiplier_at_maximum_staking_duration < MIN_BOOSTER_MULTIPLIER
        || duration_ns < shortest || config.maximum_staking_duration_sec
        < config.minimum_staking_duration_sec {
        Err(Error::Overflow)
    } else if config.maximum_staking_duration_sec == config.minimum_staking_duration_sec {
        Err(Error::DivisionByZero)
    } else {
        let gain = (config.x_booster_multiplier_at_maximum_staking_duration
            - MIN_BOOSTER_MULTIPLIER) * (duration_ns - shortest);
        let span = (config.maximum_staking_duration_sec - config.minimum_staking_duration_sec)
            * NANOS_PER_SEC * MIN_BOOSTER_MULTIPLIER;
        let extra = (amount as nat) * (gain as nat) / (span as nat);
        if amount + extra > u128::MAX {
            Err(Error::Overflow)
        } else {
            Ok((amount + extra) as Balance)
        }
    }
}

/// The stake after `amount` more was staked for `duration_ns` nanoseconds,
/// to be free at `unlock`, and what the addition counts for.  What was
/// staked before is staked anew for the new time, and counts for no less
/// than before.
pub open spec fn stake_extended(
    config: Config,
    before: Option<BoosterStaking>,
    amount: Balance,
    duration_ns: nat,
    unlock: Timestamp,
) -> Result<(BoosterStaking, Balance), Error> {
    match (match before {
        None => Ok(
            BoosterStaking { staked_booster_amount: 0, x_booster_amount: 0, unlock_timestamp: 0 },
        ),
        Some(held) => if held.unlock_timestamp > unlock {
            Err(Error::StakeShortened)
        } else {
            match spec_x_booster_amount(config, held.staked_booster_amount, duration_ns) {
                Err(e) => Err(e),
                Ok(anew) => Ok(
                    BoosterStaking {
                        x_booster_amount: if held.x_booster_amount >= anew {
                            held.x_booster_amount
                        } else {
                            anew
                        },
                        ..held
                    },
                ),
            }
        },
    }) {
        Err(e) => Err(e),
        Ok(base) => if base.staked_booster_amount + amount > u128::MAX {
            Err(Error::Overflow)
        } else {
            match spec_x_booster_amount(config, amount, duration_ns) {
                Err(e) => Err(e),
                Ok(extra) => if base.x_booster_amount + extra > u128::MAX {
                    Err(Error::Overflow)
                } else {
                    Ok(
                        (
                            BoosterStaking {
                                staked_booster_amount: (base.staked_booster_amount
                                    + amount) as Balance,
                                x_booster_amount: (base.x_booster_amount + extra) as Balance,
                                unlock_timestamp: unlock,
                            },
                            extra,
                        ),
                    )
                },
            }
        },
    }
}

/// The marks after the first `n` farms that the account takes part in were
/// marked.
pub open spec fn farms_marked(
    marks: Seq<FarmKey>,
    farms: Seq<(FarmKey, AccountFarmModel)>,
    n: nat,
) -> Seq<FarmKey>
    decreases n,
{
    if n == 0 {
        marks
    } else {
        with_farm(farms_marked(marks, farms, (n - 1) as nat), farms[n - 1].0)
    }
}

impl AccountModel {
    /// The account with all the farms marked that it takes part in.
    pub open spec fn with_all_affected_farms(self) -> AccountModel {
        AccountModel {
            affected_farms: farms_marked(self.affected_farms, self.farms, self.farms.len()),
            ..self
        }
    }
}

impl ContractModel {
    /// The shares and the amount that a stake takes out of the position
    /// `held` in the pool of booster tokens: what `amount` asks for, or
    /// the whole position.
    pub open spec fn stake_resolved(asset: AssetModel, held: Shares, amount: Option<Balance>) -> Result<
        (Shares, Balance),
        Error,
    > {
        match amount {
            Some(a) => match asset.supplied.shares_for(a, true) {
                Err(e) => Err(e),
                Ok(shares) => Ok((shares, a)),
            },
            None => match asset.supplied.amount_for(held, false) {
                Err(e) => Err(e),
                Ok(a) => Ok((held, a)),
            },
        }
    }

    /// The ledger and the account after the account staked `amount` of the
    /// booster tokens that it had supplied, or all of them, for `duration`
    /// seconds; then the amount staked and what it counts for.  The
    /// tokens leave the supplied pool, so they must not be lent out.  All
    /// farms of the account are marked, for its weight in them changes.
    pub open spec fn booster_staked(
        self,
        account: AccountModel,
        amount: Option<Balance>,
        duration: DurationSec,
    ) -> Result<(ContractModel, AccountModel, Balance, Balance), Error> {
        let token_id = self.config.booster_token_id@;
        if duration < self.config.minimum_staking_duration_sec || duration
            > self.config.maximum_staking_duration_sec {
            Err(Error::StakingDurationOutOfRange)
        } else {
            match self.asset(token_id) {
                Err(e) => Err(e),
                Ok(asset) => match account.asset_or_error(token_id) {
                    Err(e) => Err(e),
                    Ok(position) => match Self::stake_resolved(asset, position.shares, amount) {
                        Err(e) => Err(e),
                        Ok((shares, staked)) => if shares.0 == 0 || staked == 0 {
                            Err(Error::ZeroAmount)
                        } else if asset.available() is Err {
                            Err(asset.available()->Err_0)
                        } else if staked > asset.available()->Ok_0 {
                            Err(Error::ExceededAvailable)
                        } else {
                            match position.after_withdraw(shares) {
                                Err(e) => Err(e),
                                Ok(position2) => match asset.supplied.after_withdraw(
                                    shares,
                                    staked,
                                ) {
                                    Err(e) => Err(e),
                                    Ok(pool) => if self.block_timestamp + duration
                                        * NANOS_PER_SEC > u64::MAX {
                                        Err(Error::Overflow)
                                    } else {
                                        match stake_extended(
                                            self.config,
                                            account.booster_staking,
                                            staked,
                                            (duration * NANOS_PER_SEC) as nat,
                                            (self.block_timestamp + duration
                                                * NANOS_PER_SEC) as Timestamp,
                                        ) {
                                            Err(e) => Err(e),
                                            Ok((staking, extra)) => match self.with_asset(
                                                token_id,
                                                AssetModel { supplied: pool, ..asset },
                                            ) {
                                                Err(e) => Err(e),
                                                Ok(c) => Ok(
                                                    (
                                                        c,
                                                        (AccountModel {
                                                            booster_staking: Some(staking),
                                                            ..account.with_asset(
                                                                token_id,
                                                                position2,
                                                            )
                                                        }).with_all_affected_farms(),
                                                        staked,
                                                        extra,
                                                    ),
                                                ),
                                            },
                                        }
                                    },
                                },
                            }
                        },
                    },
                },
            }
        }
    }

    /// The ledger and the account after the account took back its stake,
    /// and the stake that it had.  The tokens are supplied again.  All
    /// farms of the account are marked.
    pub open spec fn booster_unstaked(self, account: AccountModel) -> Result<
        (ContractModel, AccountModel, BoosterStaking),
        Error,
    > {
        match account.booster_staking {
            None => Err(Error::NoStake),
            Some(staking) => if staking.unlock_timestamp > self.block_timestamp {
                Err(Error::StakeLocked)
            } else {
                match self.deposited(
                    AccountModel { booster_staking: None, ..account },
                    self.config.booster_token_id@,
                    staking.staked_booster_amount,
                ) {
                    Err(e) => Err(e),
                    Ok((c, a, _)) => Ok((c, a.with_all_affected_farms(), staking)),
                }
            },
        }
    }
}

/// What `amount` booster tokens count for when they are staked for
/// `duration_ns` nanoseconds.
pub fn compute_x_booster_amount(config: &Config, amount: Balance, duration_ns: u64) -> (r: Result<
    Balance,
    Error,
>)
    ensures
        r == spec_x_booster_amount(*config, amount, duration_ns as nat),
{
    let shortest = to_nano(config.minimum_staking_duration_sec);
    if config.x_booster_multiplier_at_maximum_staking_duration < MIN_BOOSTER_MULTIPLIER
        || duration_ns < shortest || config.maximum_staking_duration_sec
        < config.minimum_staking_duration_sec {
        return Err(Error::Overflow);
    }
    if config.maximum_staking_duration_sec == config.minimum_staking_duration_sec {
        return Err(Error::DivisionByZero);
    }
    let more: u32 = config.x_booster_multiplier_at_maximum_staking_duration
        - MIN_BOOSTER_MULTIPLIER;
    let longer: u64 = duration_ns - shortest;
    let range: u64 = to_nano(
        config.maximum_staking_duration_sec - config.minimum_staking_duration_sec,
    );
    assert(more * longer <= u128::MAX && range * MIN_BOOSTER_MULTIPLIER <= u128::MAX && range
        * MIN_BOOSTER_MULTIPLIER > 0) by (nonlinear_arith)
        requires
            more <= u32::MAX,
            longer <= u64::MAX,
            0 < range <= u64::MAX,
            MIN_BOOSTER_MULTIPLIER == 10000,
    ;
    let gain: u128 = (more as u128) * (longer as u128);
    let span: u128 = (range as u128) * (MIN_BOOSTER_MULTIPLIER as u128);
    match mul_div_u128(amount, gain, 0, span) {
        None => Err(Error::Overflow),
        Some(extra) => if extra > u128::MAX - amount {
            Err(Error::Overflow)
        } else {
            Ok(amount + extra)
        },
    }
}

/// Adds `amount`, staked for `duration_ns` nanoseconds and free at
/// `unlock`, to the stake that an account has.
pub fn extend_stake(
    config: &Config,
    before: Option<BoosterStaking>,
    amount: Balance,
    duration_ns: u64,
    unlock: Timestamp,
) -> (r: Result<(BoosterStaking, Balance), Error>)
    ensures
        r == stake_extended(*config, before, amount, duration_ns as nat, unlock),
{
    let mut staking = match before {
        None => BoosterStaking { staked_booster_amount: 0, x_booster_amount: 0, unlock_timestamp: 0 },
        Some(held) => {
            if held.unlock_timestamp > unlock {
                return Err(Error::StakeShortened);
            }
            let anew = compute_x_booster_amount(config, held.staked_booster_amount, duration_ns)?;
            BoosterStaking {
                staked_booster_amount: held.staked_booster_amount,
                x_booster_amount: if held.x_booster_amount >= anew {
                    held.x_booster_amount
                } else {
                    anew
                },
                unlock_timestamp: held.unlock_timestamp,
            }
        },
    };
    if amount > u128::MAX - staking.staked_booster_amount {
        return Err(Error::Overflow);
    }
    let extra = compute_x_booster_amount(config, amount, duration_ns)?;
    if extra > u128::MAX - staking.x_booster_amount {
        return Err(Error::Overflow);
    }
    staking.unlock_timestamp = unlock;
    staking.staked_booster_amount = staking.staked_booster_amount + amount;
    staking.x_booster_amount = staking.x_booster_amount + extra;
    Ok((staking, extra))
}

impl Account {
    /// Marks all the farms that the account takes part in.
    pub fn add_all_affected_farms(&mut self)
        ensures
            final(self)@ == old(self)@.with_all_affected_farms(),
    {
        let mut i: usize = 0;
        while i < self.farms.len()
            invariant
                i <= self.farms@.len(),
                self@ == (AccountModel {
                    affected_farms: farms_marked(
                        old(self)@.affected_farms,
                        old(self)@.farms,
                        i as nat,
                    ),
                    ..old(self)@
                }),
            decreases self.farms@.len() - i,
        {
            let farm_id = self.farms[i].farm_id.clone();
            assert(self@.farms[i as int].0 == farm_id@);
            insert_farm(&mut self.affected_farms, farm_id);
            i += 1;
        }
    }
}

impl Contract {
    /// Stakes `amount` of the booster tokens that the account has
    /// supplied, or all of them, for `duration` seconds.  Returns the
    /// amount staked and what it counts for.
    pub fn internal_account_stake_booster(
        &mut self,
        account: &mut Account,
        amount: Option<Balance>,
        duration: DurationSec,
    ) -> (r: Result<(Balance, Balance), Error>)
        ensures
            match old(self)@.booster_staked(old(account)@, amount, duration) {
                Ok((c, a, staked, extra)) => r == Ok::<(Balance, Balance), Error>((staked, extra))
                    && final(self)@ == c && final(account)@ == a,
                Err(e) => r == Err::<(Balance, Balance), Error>(e) && final(self)@ == old(self)@
                    && final(account)@ == old(account)@,
            },
    {
        if duration < self.config.minimum_staking_duration_sec || duration
            > self.config.maximum_staking_duration_sec {
            return Err(Error::StakingDurationOutOfRange);
        }
        let booster_token_id = self.config.booster_token_id.clone();
        let mut asset = self.internal_unwrap_asset(&booster_token_id)?;
        let mut account_asset = account.internal_unwrap_asset(&booster_token_id)?;
        let (shares, staked) = match amount {
            Some(a) => (asset.supplied.amount_to_shares(a, true)?, a),
            None => (account_asset.shares, asset.supplied.shares_to_amount(account_asset.shares, false)?),
        };
        if shares.0 == 0 || staked == 0 {
            return Err(Error::ZeroAmount);
        }
        if staked > asset.available_amount()? {
            return Err(Error::ExceededAvailable);
        }
        account_asset.withdraw_shares(shares)?;
        asset.supplied.withdraw(shares, staked)?;
        let duration_ns = to_nano(duration);
        if duration_ns > u64::MAX - self.block_timestamp {
            return Err(Error::Overflow);
        }
        let unlock: Timestamp = self.block_timestamp + duration_ns;
        let (staking, extra) = extend_stake(
            &self.config,
            account.booster_staking,
            staked,
            duration_ns,
            unlock,
        )?;
        self.internal_set_asset(&booster_token_id, asset)?;
        account.internal_set_asset(&booster_token_id, account_asset);
        account.booster_staking = Some(staking);
        account.add_all_affected_farms();
        Ok((staked, extra))
    }

    /// Gives the account's stake back to it as a supplied position, once
    /// it is free.  Returns the stake.
    pub fn internal_account_unstake_booster(&mut self, account: &mut Account) -> (r: Result<
        BoosterStaking,
        Error,
    >)
        ensures
            match old(self)@.booster_unstaked(old(account)@) {
                Ok((c, a, staking)) => r == Ok::<BoosterStaking, Error>(staking) && final(self)@
                    == c && final(account)@ == a,
                Err(e) => r == Err::<BoosterStaking, Error>(e) && final(self)@ == old(self)@
                    && final(account)@ == old(account)@,
            },
    {
        let staking = match account.booster_staking {
            None => {
                return Err(Error::NoStake);
            },
            Some(staking) => staking,
        };
        if staking.unlock_timestamp > self.block_timestamp {
            return Err(Error::StakeLocked);
        }
        let booster_token_id = self.config.booster_token_id.clone();
        account.booster_staking = None;
        match self.internal_deposit(account, &booster_token_id, staking.staked_booster_amount) {
            Err(e) => {
                account.booster_staking = Some(staking);
                Err(e)
            },
            Ok(_) => {
                account.add_all_affected_farms();
                Ok(staking)
            },
        }
    }
}

/// Staking keeps every asset solvent: nothing is staked that is lent out.
pub proof fn lemma_stake_keeps_solvent(
    c: ContractModel,
    account: AccountModel,
    amount: Option<Balance>,
    duration: DurationSec,
)
    requires
        c.solvent(),
    ensures
        c.booster_staked(account, amount, duration) matches Ok(s) ==> s.0.solvent(),
{
    let token_id = c.config.booster_token_id@;
    lemma_asset_solvent(c, token_id);
    if c.booster_staked(account, amount, duration) is Ok {
        let asset = c.asset(token_id)->Ok_0;
        let position = account.asset_or_error(token_id)->Ok_0;
        let resolved = ContractModel::stake_resolved(asset, position.shares, amount)->Ok_0;
        let pool = asset.supplied.after_withdraw(resolved.0, resolved.1)->Ok_0;
        lemma_with_asset_solvent(c, token_id, AssetModel { supplied: pool, ..asset });
    }
}

/// Taking a stake back keeps every asset solvent.
pub proof fn lemma_unstake_keeps_solvent(c: ContractModel, account: AccountModel)
    requires
        c.solvent(),
    ensures
        c.booster_unstaked(account) matches Ok(s) ==> s.0.solvent(),
{
    if account.booster_staking is Some {
        lemma_deposit_keeps_solvent(
            c,
            AccountModel { booster_staking: None, ..account },
            c.config.booster_token_id@,
            account.booster_staking->Some_0.staked_booster_amount,
        );
    }
}

} // verus!

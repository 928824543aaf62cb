//! The parameters of one asset, and the interest rate curve they define.

use crate::big_decimal::{
    mantissa_of, spec_add, spec_div, spec_mul, spec_sub, BigDecimal, BIG_DIVISOR, MAX_RATIO,
    RATIO_UNIT,
};
use crate::error::Error;
use crate::pool::Balance;
use vstd::prelude::*;

verus! {

/// What the owner of the ledger fixes for an asset.
#[derive(Clone, Copy, Debug, PartialEq, Eq, Structural)]
pub struct AssetConfig {
    /// The part of the interest that goes to the reserve, in 1/10000.
    pub reserve_ratio: u32,
    /// The utilization at which the rate curve has its kink, in 1/10000.
    pub target_utilization: u32,
    /// The growth per millisecond at the target utilization: the mantissa of
    /// a decimal that is at least one.
    pub target_utilization_rate: u128,
    /// The growth per millisecond when everything is borrowed: the mantissa
    /// of a decimal.
    pub max_utilization_rate: u128,
    /// How much of the asset's value counts as collateral, in 1/10000.  A
    /// debt in the asset counts for its value divided by this ratio.
    pub volatility_ratio: u32,
    /// Decimals to add to the token's own, so that its balances have 18.
    pub extra_decimals: u8,
    /// Whether the asset can be deposited.
    pub can_deposit: bool,
    /// Whether the asset can be withdrawn.
    pub can_withdraw: bool,
    /// Whether deposits of the asset count as collateral.
    pub can_use_as_collateral: bool,
    /// Whether the asset can be borrowed.
    pub can_borrow: bool,
}

/// The growth per millisecond at the given utilization, by the curve of
/// `config`: from one at no utilization, in a straight line to the target
/// rate at the target utilization, and in another to the maximal rate when
/// everything is borrowed.
pub open spec fn spec_rate(config: AssetConfig, borrowed: nat, total: nat) -> Result<nat, Error> {
    if total == 0 {
        Ok(BIG_DIVISOR as nat)
    } else {
        let pos = (borrowed * (BIG_DIVISOR as nat)) / total;
        let target = (config.target_utilization as nat) * (RATIO_UNIT as nat);
        let target_rate = config.target_utilization_rate as nat;
        let max_rate = config.max_utilization_rate as nat;
        if pos < target {
            match spec_sub(target_rate, BIG_DIVISOR as nat) {
                Err(e) => Err(e),
                Ok(slope) => match spec_mul(pos, slope) {
                    Err(e) => Err(e),
                    Ok(rise) => match spec_div(rise, target) {
                        Err(e) => Err(e),
                        Ok(extra) => spec_add(BIG_DIVISOR as nat, extra),
                    },
                },
            }
        } else if config.target_utilization > MAX_RATIO {
            Err(Error::InvalidConfig)
        } else {
            let rest = ((MAX_RATIO - config.target_utilization) as nat) * (RATIO_UNIT as nat);
            match spec_sub(pos, target) {
                Err(e) => Err(e),
                Ok(over) => match spec_sub(max_rate, target_rate) {
                    Err(e) => Err(e),
                    Ok(slope) => match spec_mul(over, slope) {
                        Err(e) => Err(e),
                        Ok(rise) => match spec_div(rise, rest) {
                            Err(e) => Err(e),
                            Ok(extra) => spec_add(target_rate, extra),
                        },
                    },
                },
            }
        }
    }
}

impl AssetConfig {
    /// The ratios are ratios, the kink lies below full utilization, and the
    /// curve does not fall behind the kink.
    pub open spec fn valid(&self) -> bool {
        &&& self.reserve_ratio <= MAX_RATIO
        &&& self.target_utilization < MAX_RATIO
        &&& self.target_utilization_rate <= self.max_utilization_rate
    }

    /// The configuration is valid and its rate at the kink is at least one,
    /// as that of every asset that can be borrowed has to be.
    pub open spec fn growing(&self) -> bool {
        &&& self.valid()
        &&& BIG_DIVISOR <= self.target_utilization_rate
    }

    /// Rejects a configuration that is not `valid`.
    pub fn assert_valid(&self) -> (r: Result<(), Error>)
        ensures
            r is Ok <==> self.valid(),
            r is Err ==> r == Err::<(), Error>(Error::InvalidConfig),
    {
        if self.reserve_ratio <= MAX_RATIO && self.target_utilization < MAX_RATIO
            && self.target_utilization_rate <= self.max_utilization_rate {
            Ok(())
        } else {
            Err(Error::InvalidConfig)
        }
    }

    /// The growth per millisecond of a debt, when `borrowed_balance` of
    /// `total_supplied_balance` is lent out.
    pub fn get_rate(&self, borrowed_balance: Balance, total_supplied_balance: Balance) -> (r:
        Result<BigDecimal, Error>)
        ensures
            mantissa_of(r) == spec_rate(
                *self,
                borrowed_balance as nat,
                total_supplied_balance as nat,
            ),
    {
        if total_supplied_balance == 0 {
            return Ok(BigDecimal::one());
        }
        let pos = BigDecimal::from_u128(borrowed_balance).div_u128(total_supplied_balance)?;
        let target = BigDecimal::from_ratio(self.target_utilization);
        let target_rate = BigDecimal::from_mantissa(self.target_utilization_rate);
        if pos.lt(&target) {
            let slope = target_rate.checked_sub(&BigDecimal::one())?;
            let rise = pos.checked_mul(&slope)?;
            let extra = rise.checked_div(&target)?;
            BigDecimal::one().checked_add(&extra)
        } else {
            if self.target_utilization > MAX_RATIO {
                return Err(Error::InvalidConfig);
            }
            let rest = BigDecimal::from_ratio(MAX_RATIO - self.target_utilization);
            let max_rate = BigDecimal::from_mantissa(self.max_utilization_rate);
            let over = pos.checked_sub(&target)?;
            let slope = max_rate.checked_sub(&target_rate)?;
            let rise = over.checked_mul(&slope)?;
            let extra = rise.checked_div(&rest)?;
            target_rate.checked_add(&extra)
        }
    }
}

/// A growing configuration never lets a debt shrink: its rate is at least
/// one.
pub proof fn lemma_rate_at_least_one(config: AssetConfig, borrowed: nat, total: nat)
    requires
        config.growing(),
    ensures
        spec_rate(config, borrowed, total) matches Ok(rate) ==> rate >= BIG_DIVISOR,
{
}

} // verus!

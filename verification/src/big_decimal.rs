//! Fixed-point decimal numbers with 27 digits after the point.
//!
//! A [`BigDecimal`] is a natural number, its mantissa, read as a multiple of
//! 10^-27.  The mantissa stays below 2^384; an operation whose result would
//! not is rejected.  Results that are not exact are rounded to the nearest
//! mantissa, halves upwards.

use crate::error::Error;
use crate::prices::{exp10, lemma_pow10_adds, lemma_pow10_grows, pow10, spec_balance_value, Price};
use crate::wide::{limbs_value, Wide};
use vstd::arithmetic::power2::{lemma2_to64, lemma_pow2_adds, lemma_pow2_strictly_increases, pow2};
use vstd::prelude::*;

verus! {

/// Digits after the decimal point.
pub const NUM_DECIMALS: u8 = 27;

/// The mantissa of the number one, 10^27.
pub const BIG_DIVISOR: u128 = 1_000_000_000_000_000_000_000_000_000;

/// Half of [`BIG_DIVISOR`], added before a division to round to the nearest.
pub const HALF_DIVISOR: u128 = 500_000_000_000_000_000_000_000_000;

/// The denominator of a ratio: a ratio `r` stands for `r / 10000`.
pub const MAX_RATIO: u32 = 10000;

/// The mantissa of the ratio `1 / 10000`, 10^23.
pub const RATIO_UNIT: u128 = 100_000_000_000_000_000_000_000;

/// The first mantissa that a [`BigDecimal`] cannot hold, 2^384.
pub open spec fn limit() -> nat {
    pow2(384)
}

/// `m` as the mantissa of a result, or the overflow that it causes.
pub open spec fn fit(m: nat) -> Result<nat, Error> {
    if m < limit() {
        Ok(m)
    } else {
        Err(Error::Overflow)
    }
}

/// `m` as a balance, or the overflow that it causes.
pub open spec fn fit_u128(m: nat) -> Result<u128, Error> {
    if m <= u128::MAX {
        Ok(m as u128)
    } else {
        Err(Error::Overflow)
    }
}

/// The mantissa of the rounded product of two decimals.
pub open spec fn mul_round(a: nat, b: nat) -> nat {
    (a * b + HALF_DIVISOR as nat) / (BIG_DIVISOR as nat)
}

/// The mantissa of the rounded quotient of two decimals, for `b > 0`.
pub open spec fn div_round(a: nat, b: nat) -> nat {
    (a * BIG_DIVISOR as nat + HALF_DIVISOR as nat) / b
}

/// The mantissa of a decimal times the ratio `ratio / 10000`, rounded.
pub open spec fn mul_ratio_round(a: nat, ratio: nat) -> nat {
    (a * ratio + (MAX_RATIO / 2) as nat) / (MAX_RATIO as nat)
}

/// The mantissa of a decimal divided by the ratio `ratio / 10000`, rounded,
/// for `ratio > 0`.
pub open spec fn div_ratio_round(a: nat, ratio: nat) -> nat {
    (a * MAX_RATIO as nat + (MAX_RATIO / 2) as nat) / ratio
}

/// The balance nearest to a decimal times the balance `b`.
pub open spec fn round_mul(a: nat, b: nat) -> nat {
    (a * b + HALF_DIVISOR as nat) / (BIG_DIVISOR as nat)
}

/// The sum of two decimals, by their mantissas.
pub open spec fn spec_add(a: nat, b: nat) -> Result<nat, Error> {
    fit(a + b)
}

/// The difference of two decimals, by their mantissas: decimals are never
/// negative.
pub open spec fn spec_sub(a: nat, b: nat) -> Result<nat, Error> {
    if a >= b {
        Ok((a - b) as nat)
    } else {
        Err(Error::NegativeDecimal)
    }
}

/// The rounded product of two decimals, by their mantissas.
pub open spec fn spec_mul(a: nat, b: nat) -> Result<nat, Error> {
    fit(mul_round(a, b))
}

/// The rounded quotient of two decimals, by their mantissas.
pub open spec fn spec_div(a: nat, b: nat) -> Result<nat, Error> {
    if b == 0 {
        Err(Error::DivisionByZero)
    } else {
        fit(div_round(a, b))
    }
}

/// A decimal times a ratio, by its mantissa.
pub open spec fn spec_mul_ratio(a: nat, ratio: nat) -> Result<nat, Error> {
    fit(mul_ratio_round(a, ratio))
}

/// A decimal divided by a ratio, by its mantissa.
pub open spec fn spec_div_ratio(a: nat, ratio: nat) -> Result<nat, Error> {
    if ratio == 0 {
        Err(Error::DivisionByZero)
    } else {
        fit(div_ratio_round(a, ratio))
    }
}

/// A decimal divided by a whole number, rounded down, by its mantissa.
pub open spec fn spec_div_u128(a: nat, b: nat) -> Result<nat, Error> {
    if b == 0 {
        Err(Error::DivisionByZero)
    } else {
        Ok(a / b)
    }
}

/// What the square-and-multiply loop yields from the accumulator `res`, the
/// running square `x` and the exponent bits still to come, `e`.  Every
/// product is rounded, so this is not quite the real power.
pub open spec fn pow_from(res: nat, x: nat, e: nat) -> Result<nat, Error>
    decreases e,
{
    if e == 0 {
        Ok(res)
    } else {
        let res2 = if e % 2 == 1 {
            mul_round(res, x)
        } else {
            res
        };
        if res2 >= limit() {
            Err(Error::Overflow)
        } else if e / 2 == 0 {
            Ok(res2)
        } else {
            let x2 = mul_round(x, x);
            if x2 >= limit() {
                Err(Error::Overflow)
            } else {
                pow_from(res2, x2, e / 2)
            }
        }
    }
}

/// The mantissa of `x` raised to the power `e`, by rounded square-and-multiply.
pub open spec fn spec_pow(x: nat, e: nat) -> Result<nat, Error> {
    pow_from(BIG_DIVISOR as nat, x, e)
}

/// The result of an operation, with the decimal replaced by its mantissa.
pub open spec fn mantissa_of(r: Result<BigDecimal, Error>) -> Result<nat, Error> {
    match r {
        Ok(d) => Ok(d@),
        Err(e) => Err(e),
    }
}

/// 2^128, one more than the largest balance.
pub open spec fn two_pow_128() -> nat {
    0x1_0000_0000_0000_0000_0000_0000_0000_0000nat
}

/// The limit is the square root of the width of the intermediate results,
/// and leaves room for any product of two balances.
pub proof fn lemma_limit()
    ensures
        limit() * limit() == Wide::modulus(),
        limit() >= two_pow_128() * two_pow_128(),
        two_pow_128() * two_pow_128() > 0,
        limit() < Wide::modulus(),
        limit() == two_pow_128() * two_pow_128() * two_pow_128(),
{
    lemma_pow2_adds(256, 128);
    lemma_pow2_strictly_increases(384, 768);
    lemma2_to64();
    lemma_pow2_adds(64, 64);
    lemma_pow2_adds(128, 128);
    lemma_pow2_adds(384, 384);
    lemma_pow2_strictly_increases(256, 384);
    Wide::lemma_modulus();
    assert(pow2(64) * pow2(64) == two_pow_128()) by (nonlinear_arith)
        requires
            pow2(64) == 0x1_0000_0000_0000_0000,
    ;
    assert(two_pow_128() * two_pow_128() > 0) by (nonlinear_arith);
}

proof fn lemma_fits(a: nat, b: nat, extra: nat, l: nat)
    by (nonlinear_arith)
    requires
        a < l,
        b <= l,
        extra < l,
    ensures
        a * b + extra < l * l,
{
    assert(a * b <= (l - 1) * l);
}

proof fn lemma_small_product(a: nat, b: nat)
    by (nonlinear_arith)
    requires
        a < two_pow_128(),
        b < two_pow_128(),
    ensures
        a * b < two_pow_128() * two_pow_128(),
{
    assert(a * b <= (two_pow_128() - 1) * (two_pow_128() - 1));
}

/// The rounded product grows with its first factor.
pub proof fn lemma_mul_round_monotone(a: nat, b: nat, c: nat)
    requires
        a <= b,
    ensures
        mul_round(a, c) <= mul_round(b, c),
        mul_round(c, a) <= mul_round(c, b),
{
    assert(a * c <= b * c) by (nonlinear_arith)
        requires
            a <= b,
    ;
    assert(c * a == a * c && c * b == b * c) by (nonlinear_arith);
    vstd::arithmetic::div_mod::lemma_div_is_ordered(
        (a * c + HALF_DIVISOR as nat) as int,
        (b * c + HALF_DIVISOR as nat) as int,
        BIG_DIVISOR as int,
    );
}

/// Multiplying by a decimal that is at least one never makes a number
/// smaller, and multiplying by one leaves it as it is.
pub proof fn lemma_mul_round_at_least(r: nat, x: nat)
    requires
        x >= BIG_DIVISOR,
    ensures
        mul_round(r, x) >= r,
        mul_round(x, r) >= r,
        mul_round(r, BIG_DIVISOR as nat) == r,
{
    let d = BIG_DIVISOR as nat;
    vstd::arithmetic::div_mod::lemma_fundamental_div_mod_converse(
        (r * d + HALF_DIVISOR as nat) as int,
        d as int,
        r as int,
        HALF_DIVISOR as int,
    );
    lemma_mul_round_monotone(d, x, r);
    assert(r * d == d * r) by (nonlinear_arith);
    assert(r * x == x * r) by (nonlinear_arith);
}

/// The loop's result grows with the accumulator that it starts from.
pub proof fn lemma_pow_from_monotone_start(r: nat, s: nat, x: nat, e: nat)
    requires
        r <= s,
    ensures
        pow_from(r, x, e) matches Ok(p) ==> (pow_from(s, x, e) matches Ok(q) ==> p <= q),
    decreases e,
{
    if e != 0 {
        lemma_mul_round_monotone(r, s, x);
        let r2 = if e % 2 == 1 {
            mul_round(r, x)
        } else {
            r
        };
        let s2 = if e % 2 == 1 {
            mul_round(s, x)
        } else {
            s
        };
        if e / 2 != 0 {
            lemma_pow_from_monotone_start(r2, s2, mul_round(x, x), e / 2);
        }
    }
}

/// With a base that is at least one, the loop never ends below the
/// accumulator that it starts from.
pub proof fn lemma_pow_from_at_least_start(r: nat, x: nat, e: nat)
    requires
        x >= BIG_DIVISOR,
    ensures
        pow_from(r, x, e) matches Ok(p) ==> p >= r,
    decreases e,
{
    if e != 0 {
        lemma_mul_round_at_least(r, x);
        lemma_mul_round_at_least(x, x);
        let r2 = if e % 2 == 1 {
            mul_round(r, x)
        } else {
            r
        };
        if e / 2 != 0 {
            lemma_pow_from_at_least_start(r2, mul_round(x, x), e / 2);
        }
    }
}

/// With a base and an accumulator that are at least one, a positive
/// exponent leads at least to the base.
pub proof fn lemma_pow_from_at_least_base(s: nat, x: nat, e: nat)
    requires
        x >= BIG_DIVISOR,
        s >= BIG_DIVISOR,
        e >= 1,
    ensures
        pow_from(s, x, e) matches Ok(p) ==> p >= x,
    decreases e,
{
    lemma_mul_round_at_least(x, s);
    lemma_mul_round_at_least(x, x);
    let x2 = mul_round(x, x);
    if e % 2 == 1 {
        if e / 2 != 0 {
            lemma_pow_from_at_least_start(mul_round(s, x), x2, e / 2);
        }
    } else {
        lemma_pow_from_at_least_base(s, x2, e / 2);
    }
}

/// The loop's result grows with the exponent, as long as the base is at
/// least one and both accumulators lie between one and the base.
pub proof fn lemma_pow_from_monotone(r: nat, s: nat, x: nat, n: nat, m: nat)
    requires
        BIG_DIVISOR <= r <= x,
        BIG_DIVISOR <= s <= x,
        n < m,
    ensures
        pow_from(r, x, n) matches Ok(p) ==> (pow_from(s, x, m) matches Ok(q) ==> p <= q),
    decreases m,
{
    if n == 0 {
        lemma_pow_from_at_least_base(s, x, m);
    } else {
        let x2 = mul_round(x, x);
        let r2 = if n % 2 == 1 {
            mul_round(r, x)
        } else {
            r
        };
        let s2 = if m % 2 == 1 {
            mul_round(s, x)
        } else {
            s
        };
        lemma_mul_round_at_least(x, x);
        lemma_mul_round_at_least(r, x);
        lemma_mul_round_at_least(s, x);
        lemma_mul_round_at_least(x, s);
        lemma_mul_round_monotone(r, x, x);
        lemma_mul_round_monotone(s, x, x);
        assert(m / 2 >= 1);
        if n / 2 == 0 {
            lemma_pow_from_at_least_base(s2, x2, m / 2);
        } else if n / 2 < m / 2 {
            lemma_pow_from_monotone(r2, s2, x2, n / 2, m / 2);
        } else {
            assert(n % 2 == 0 && m % 2 == 1);
            lemma_pow_from_monotone_start(r2, s2, x2, n / 2);
        }
    }
}

/// A power of a decimal that is at least one grows with the exponent, and
/// is itself at least one.
pub proof fn lemma_pow_monotone(x: nat, n: nat, m: nat)
    requires
        x >= BIG_DIVISOR,
        n <= m,
    ensures
        spec_pow(x, n) matches Ok(p) ==> p >= BIG_DIVISOR && (spec_pow(x, m) matches Ok(q) ==> p
            <= q),
{
    lemma_pow_from_at_least_start(BIG_DIVISOR as nat, x, n);
    if n < m {
        lemma_pow_from_monotone(BIG_DIVISOR as nat, BIG_DIVISOR as nat, x, n, m);
    }
}

/// A non-negative decimal number with 27 digits after the point.
#[derive(Clone, Copy, Debug)]
pub struct BigDecimal {
    mantissa: Wide,
}

impl View for BigDecimal {
    type V = nat;

    closed spec fn view(&self) -> nat {
        self.mantissa@
    }
}

impl BigDecimal {
    /// Every decimal's mantissa is below the limit.
    #[verifier::type_invariant]
    pub open spec fn within_limit(self) -> bool {
        self@ < limit()
    }

    /// The decimal with mantissa `m`, if that is below the limit.
    fn fitted(m: Wide) -> (r: Result<BigDecimal, Error>)
        ensures
            mantissa_of(r) == fit(m@),
    {
        let bound = Wide::two_pow_384();
        if m.lt(&bound) {
            Ok(BigDecimal { mantissa: m })
        } else {
            Err(Error::Overflow)
        }
    }

    /// `w / 10^27`.
    fn div_by_divisor(w: &Wide) -> (r: Wide)
        ensures
            r@ == w@ / (BIG_DIVISOR as nat),
    {
        let (q1, _) = w.div_limb(10_000_000_000_000);
        let (q2, _) = q1.div_limb(100_000_000_000_000);
        proof {
            vstd::arithmetic::div_mod::lemma_div_denominator(
                w@ as int,
                10_000_000_000_000int,
                100_000_000_000_000int,
            );
            assert(10_000_000_000_000int * 100_000_000_000_000int == BIG_DIVISOR);
        }
        q2
    }

    /// `(a * b + extra) / d`, for numbers that leave room for it.
    fn mul_add_div(a: &Wide, b: u128, extra: u128, d: u64) -> (r: Wide)
        requires
            a@ < limit(),
            d > 0,
        ensures
            r@ == (a@ * (b as nat) + (extra as nat)) / (d as nat),
    {
        let sum = Self::mul_add(a, b, extra);
        let (q, _) = sum.div_limb(d);
        q
    }

    /// `a * b + extra`, for numbers that leave room for it.
    fn mul_add(a: &Wide, b: u128, extra: u128) -> (r: Wide)
        requires
            a@ < limit(),
        ensures
            r@ == a@ * (b as nat) + (extra as nat),
    {
        let wb = Wide::from_u128(b);
        proof {
            lemma_limit();
            lemma_fits(a@, b as nat, extra as nat, limit());
        }
        let product = a.mul(&wb);
        let (sum, carry) = product.add_carry(&Wide::from_u128(extra), false);
        proof {
            sum.lemma_bounded();
        }
        sum
    }

    /// The number zero.
    pub fn zero() -> (r: BigDecimal)
        ensures
            r@ == 0,
    {
        proof {
            lemma_limit();
        }
        BigDecimal { mantissa: Wide::zero() }
    }

    /// The number one.
    pub fn one() -> (r: BigDecimal)
        ensures
            r@ == BIG_DIVISOR,
    {
        proof {
            lemma_limit();
        }
        BigDecimal { mantissa: Wide::from_u128(BIG_DIVISOR) }
    }

    /// The whole number `x`.
    pub fn from_u128(x: u128) -> (r: BigDecimal)
        ensures
            r@ == x * BIG_DIVISOR,
    {
        let a = Wide::from_u128(x);
        let b = Wide::from_u128(BIG_DIVISOR);
        proof {
            lemma_limit();
            lemma_small_product(x as nat, BIG_DIVISOR as nat);
        }
        BigDecimal { mantissa: a.mul(&b) }
    }

    /// The whole number `x`.
    pub fn from_u64(x: u64) -> (r: BigDecimal)
        ensures
            r@ == x * BIG_DIVISOR,
    {
        Self::from_u128(x as u128)
    }

    /// The whole number `x`.
    pub fn from_u32(x: u32) -> (r: BigDecimal)
        ensures
            r@ == x * BIG_DIVISOR,
    {
        Self::from_u128(x as u128)
    }

    /// The decimal whose mantissa is `mantissa`: `mantissa / 10^27`.
    pub fn from_mantissa(mantissa: u128) -> (r: BigDecimal)
        ensures
            r@ == mantissa,
    {
        proof {
            lemma_limit();
        }
        BigDecimal { mantissa: Wide::from_u128(mantissa) }
    }

    /// The mantissa as a wide integer.
    pub fn mantissa(&self) -> (r: Wide)
        ensures
            r@ == self@,
    {
        self.mantissa
    }

    /// The decimal whose mantissa the six limbs denote, lowest first.
    pub fn from_limbs(limbs: [u64; 6]) -> (r: BigDecimal)
        ensures
            r@ == limbs_value(limbs@),
    {
        BigDecimal { mantissa: Wide::from_limbs(&limbs) }
    }

    /// The mantissa in six limbs, lowest first.
    pub fn to_limbs(&self) -> (r: [u64; 6])
        ensures
            limbs_value(r@) == self@,
    {
        proof {
            use_type_invariant(self);
        }
        self.mantissa.to_limbs()
    }

    /// The ratio `ratio / 10000` as a decimal.
    pub fn from_ratio(ratio: u32) -> (r: BigDecimal)
        ensures
            r@ == ratio * RATIO_UNIT,
    {
        assert(ratio as u128 * RATIO_UNIT <= u128::MAX) by (nonlinear_arith)
            requires
                ratio <= u32::MAX,
                RATIO_UNIT == 100_000_000_000_000_000_000_000u128,
        ;
        Self::from_mantissa(ratio as u128 * RATIO_UNIT)
    }

    /// The value of `balance` at `price`, for a token whose balances carry
    /// `extra_decimals` digits more than the token itself.
    pub fn from_balance_price(balance: u128, price: &Price, extra_decimals: u8) -> (r: Result<
        BigDecimal,
        Error,
    >)
        ensures
            mantissa_of(r) == spec_balance_value(balance as nat, *price, extra_decimals),
    {
        let decimals = match price.decimals.checked_add(extra_decimals) {
            Some(d) => d,
            None => {
                return Err(Error::Overflow);
            },
        };
        proof {
            lemma_limit();
            lemma_small_product(price.multiplier as nat, balance as nat);
            assert(two_pow_128() * two_pow_128() <= two_pow_128() * two_pow_128() * two_pow_128())
                by (nonlinear_arith);
        }
        let num = Wide::from_u128(price.multiplier).mul(&Wide::from_u128(balance));
        if decimals > NUM_DECIMALS {
            let mut k: u8 = decimals - NUM_DECIMALS;
            let mut q = num;
            let ghost mut done: nat = 0;
            proof {
                assert(num@ / 1 == num@);
            }
            while k > 0
                invariant
                    q@ == num@ / pow10(done),
                    done + k == decimals - NUM_DECIMALS,
                    num@ < limit(),
                decreases k,
            {
                let step: u8 = if k > 38 {
                    38
                } else {
                    k
                };
                let d = exp10(step);
                let (q2, _) = q.div_rem(&Wide::from_u128(d));
                proof {
                    lemma_pow10_grows(done);
                    lemma_pow10_adds(done, step as nat);
                    vstd::arithmetic::div_mod::lemma_div_denominator(
                        num@ as int,
                        pow10(done) as int,
                        pow10(step as nat) as int,
                    );
                    done = done + step as nat;
                }
                q = q2;
                k = k - step;
            }
            proof {
                lemma_pow10_grows(done);
                vstd::arithmetic::div_mod::lemma_div_nonincreasing(num@ as int, pow10(done) as int);
            }
            Ok(BigDecimal { mantissa: q })
        } else {
            let scale = exp10(NUM_DECIMALS - decimals);
            proof {
                let t = two_pow_128();
                assert(num@ * (scale as nat) < t * t * t) by (nonlinear_arith)
                    requires
                        num@ < t * t,
                        (scale as nat) < t,
                        t > 0,
                {
                    assert(num@ * (scale as nat) <= (t * t - 1) * (t - 1));
                }
            }
            let m = num.mul(&Wide::from_u128(scale));
            Ok(BigDecimal { mantissa: m })
        }
    }

    /// The sum of two decimals.
    pub fn checked_add(&self, rhs: &BigDecimal) -> (r: Result<BigDecimal, Error>)
        ensures
            mantissa_of(r) == spec_add(self@, rhs@),
    {
        proof {
            use_type_invariant(self);
            use_type_invariant(rhs);
            lemma_limit();
            assert(limit() + limit() <= limit() * limit()) by (nonlinear_arith)
                requires
                    limit() >= 2,
            ;
        }
        let (sum, carry) = self.mantissa.add_carry(&rhs.mantissa, false);
        proof {
            sum.lemma_bounded();
        }
        Self::fitted(sum)
    }

    /// The difference of two decimals; an error where it would be negative.
    pub fn checked_sub(&self, rhs: &BigDecimal) -> (r: Result<BigDecimal, Error>)
        ensures
            mantissa_of(r) == spec_sub(self@, rhs@),
    {
        proof {
            use_type_invariant(self);
            use_type_invariant(rhs);
        }
        match self.mantissa.checked_sub(&rhs.mantissa) {
            Some(d) => Ok(BigDecimal { mantissa: d }),
            None => Err(Error::NegativeDecimal),
        }
    }

    /// The rounded product of two decimals.
    pub fn checked_mul(&self, rhs: &BigDecimal) -> (r: Result<BigDecimal, Error>)
        ensures
            mantissa_of(r) == spec_mul(self@, rhs@),
    {
        proof {
            use_type_invariant(self);
            use_type_invariant(rhs);
            lemma_limit();
            lemma_fits(self@, rhs@, HALF_DIVISOR as nat, limit());
        }
        let product = self.mantissa.mul(&rhs.mantissa);
        let (sum, carry) = product.add_carry(&Wide::from_u128(HALF_DIVISOR), false);
        proof {
            sum.lemma_bounded();
        }
        let q = Self::div_by_divisor(&sum);
        Self::fitted(q)
    }

    /// The rounded quotient of two decimals.
    pub fn checked_div(&self, rhs: &BigDecimal) -> (r: Result<BigDecimal, Error>)
        ensures
            mantissa_of(r) == spec_div(self@, rhs@),
    {
        proof {
            use_type_invariant(self);
            use_type_invariant(rhs);
            lemma_limit();
            lemma_fits(self@, BIG_DIVISOR as nat, HALF_DIVISOR as nat, limit());
        }
        if rhs.mantissa.is_zero() {
            return Err(Error::DivisionByZero);
        }
        let product = self.mantissa.mul(&Wide::from_u128(BIG_DIVISOR));
        let (sum, carry) = product.add_carry(&Wide::from_u128(HALF_DIVISOR), false);
        proof {
            sum.lemma_bounded();
        }
        let (q, _) = sum.div_rem(&rhs.mantissa);
        Self::fitted(q)
    }

    /// The decimal times the ratio `ratio / 10000`, rounded.
    pub fn mul_ratio(&self, ratio: u32) -> (r: Result<BigDecimal, Error>)
        ensures
            mantissa_of(r) == spec_mul_ratio(self@, ratio as nat),
    {
        proof {
            use_type_invariant(self);
        }
        let q = Self::mul_add_div(
            &self.mantissa,
            ratio as u128,
            (MAX_RATIO / 2) as u128,
            MAX_RATIO as u64,
        );
        Self::fitted(q)
    }

    /// The decimal divided by the ratio `ratio / 10000`, rounded.
    pub fn div_ratio(&self, ratio: u32) -> (r: Result<BigDecimal, Error>)
        ensures
            mantissa_of(r) == spec_div_ratio(self@, ratio as nat),
    {
        proof {
            use_type_invariant(self);
        }
        if ratio == 0 {
            return Err(Error::DivisionByZero);
        }
        let q = Self::mul_add_div(
            &self.mantissa,
            MAX_RATIO as u128,
            (MAX_RATIO / 2) as u128,
            ratio as u64,
        );
        Self::fitted(q)
    }

    /// The decimal divided by the whole number `rhs`, rounded down.
    pub fn div_u128(&self, rhs: u128) -> (r: Result<BigDecimal, Error>)
        ensures
            mantissa_of(r) == spec_div_u128(self@, rhs as nat),
    {
        proof {
            use_type_invariant(self);
        }
        if rhs == 0 {
            return Err(Error::DivisionByZero);
        }
        let (q, _) = self.mantissa.div_rem(&Wide::from_u128(rhs));
        proof {
            vstd::arithmetic::div_mod::lemma_div_nonincreasing(self@ as int, rhs as int);
        }
        Ok(BigDecimal { mantissa: q })
    }

    /// The whole number nearest to the decimal.
    pub fn round_u128(&self) -> (r: Result<u128, Error>)
        ensures
            r == fit_u128((self@ + HALF_DIVISOR as nat) / (BIG_DIVISOR as nat)),
    {
        proof {
            use_type_invariant(self);
            assert(self@ * 1 == self@) by (nonlinear_arith);
        }
        let q = Self::div_by_divisor(&Self::mul_add(&self.mantissa, 1, HALF_DIVISOR));
        match q.to_u128() {
            Some(x) => Ok(x),
            None => Err(Error::Overflow),
        }
    }

    /// The whole number nearest to the decimal times `rhs`.
    pub fn round_mul_u128(&self, rhs: u128) -> (r: Result<u128, Error>)
        ensures
            r == fit_u128(round_mul(self@, rhs as nat)),
    {
        proof {
            use_type_invariant(self);
        }
        let q = Self::div_by_divisor(&Self::mul_add(&self.mantissa, rhs, HALF_DIVISOR));
        match q.to_u128() {
            Some(x) => Ok(x),
            None => Err(Error::Overflow),
        }
    }

    /// The decimal raised to the power `exponent`, by squaring and
    /// multiplying with a rounding after each product.
    pub fn pow(&self, exponent: u64) -> (r: Result<BigDecimal, Error>)
        ensures
            mantissa_of(r) == spec_pow(self@, exponent as nat),
    {
        let mut res = BigDecimal::one();
        let mut x = *self;
        let mut e = exponent;
        while e != 0
            invariant
                pow_from(res@, x@, e as nat) == spec_pow(self@, exponent as nat),
            decreases e,
        {
            proof {
                use_type_invariant(&res);
                use_type_invariant(&x);
            }
            if e % 2 == 1 {
                match res.checked_mul(&x) {
                    Ok(p) => {
                        res = p;
                    },
                    Err(err) => {
                        return Err(err);
                    },
                }
            }
            proof {
                use_type_invariant(&res);
            }
            e = e / 2;
            if e != 0 {
                match x.checked_mul(&x) {
                    Ok(p) => {
                        x = p;
                    },
                    Err(err) => {
                        return Err(err);
                    },
                }
            }
        }
        Ok(res)
    }

    /// Whether the decimal is zero.
    pub fn is_zero(&self) -> (r: bool)
        ensures
            r == (self@ == 0),
    {
        self.mantissa.is_zero()
    }

    /// Whether `self < rhs`.
    pub fn lt(&self, rhs: &BigDecimal) -> (r: bool)
        ensures
            r == (self@ < rhs@),
    {
        self.mantissa.lt(&rhs.mantissa)
    }

    /// Whether `self <= rhs`.
    pub fn le(&self, rhs: &BigDecimal) -> (r: bool)
        ensures
            r == (self@ <= rhs@),
    {
        self.mantissa.le(&rhs.mantissa)
    }

    /// Whether `self > rhs`.
    pub fn gt(&self, rhs: &BigDecimal) -> (r: bool)
        ensures
            r == (self@ > rhs@),
    {
        rhs.mantissa.lt(&self.mantissa)
    }

    /// Whether `self >= rhs`.
    pub fn ge(&self, rhs: &BigDecimal) -> (r: bool)
        ensures
            r == (self@ >= rhs@),
    {
        rhs.mantissa.le(&self.mantissa)
    }

    /// The whole part of the decimal and the mantissa of its fraction, where
    /// the whole part is a balance.
    pub fn parts(&self) -> (r: Option<(u128, u128)>)
        ensures
            r == (if self@ / (BIG_DIVISOR as nat) <= u128::MAX {
                Some(((self@ / (BIG_DIVISOR as nat)) as u128, (self@ % (BIG_DIVISOR as nat)) as u128))
            } else {
                None
            }),
    {
        let (q, rem) = self.mantissa.div_rem(&Wide::from_u128(BIG_DIVISOR));
        match q.to_u128() {
            Some(whole) => match rem.to_u128() {
                Some(fraction) => Some((whole, fraction)),
                None => None,
            },
            None => None,
        }
    }
}

impl PartialEq for BigDecimal {
    fn eq(&self, other: &BigDecimal) -> (r: bool) {
        self.mantissa.same(&other.mantissa)
    }
}

impl vstd::std_specs::cmp::PartialEqSpecImpl for BigDecimal {
    open spec fn obeys_eq_spec() -> bool {
        true
    }

    open spec fn eq_spec(&self, other: &BigDecimal) -> bool {
        self@ == other@
    }
}

} // verus!

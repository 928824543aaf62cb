//! Fixed-width unsigned integers, wide enough to hold every intermediate
//! product of the ledger's fixed-point arithmetic.
//!
//! A [`Wide`] is a 768-bit natural number.  Addition, subtraction,
//! multiplication and the division by one limb work limb by limb; the
//! division by a wider number is built from addition and subtraction by
//! doubling, so that it is proved against plain integer arithmetic.

use vstd::arithmetic::div_mod::lemma_fundamental_div_mod_converse;
use vstd::arithmetic::power2::{
    lemma2_to64, lemma_pow2_adds, lemma_pow2_pos, lemma_pow2_unfold, pow2,
};
use vstd::prelude::*;

verus! {

/// Number of bits in a [`Wide`].
pub const WIDE_BITS: u32 = 768;

/// The base of one limb, 2^64.
pub open spec fn limb_base() -> nat {
    0x1_0000_0000_0000_0000
}

/// `limb_base()` raised to the power `k`.
pub open spec fn base_pow(k: nat) -> nat
    decreases k,
{
    if k == 0 {
        1
    } else {
        limb_base() * base_pow((k - 1) as nat)
    }
}

/// The number denoted by the `k` lowest limbs of a little-endian sequence.
pub open spec fn prefix_value(s: Seq<u64>, k: nat) -> nat
    decreases k,
{
    if k == 0 {
        0
    } else {
        prefix_value(s, (k - 1) as nat) + (s[k - 1] as nat) * base_pow((k - 1) as nat)
    }
}

/// The number denoted by a little-endian sequence of limbs.
pub open spec fn limbs_value(s: Seq<u64>) -> nat {
    prefix_value(s, s.len())
}

proof fn lemma_prefix_frame(s1: Seq<u64>, s2: Seq<u64>, k: nat)
    requires
        forall|j: int| 0 <= j < k ==> s1[j] == s2[j],
    ensures
        prefix_value(s1, k) == prefix_value(s2, k),
    decreases k,
{
    if k > 0 {
        lemma_prefix_frame(s1, s2, (k - 1) as nat);
    }
}

proof fn lemma_small_powers()
    ensures
        base_pow(0) == 1,
        base_pow(1) == limb_base(),
        base_pow(2) == 0x1_0000_0000_0000_0000_0000_0000_0000_0000,
{
    reveal_with_fuel(base_pow, 3);
    assert(limb_base() * 1 == limb_base());
    assert(limb_base() * limb_base() == 0x1_0000_0000_0000_0000_0000_0000_0000_0000)
        by (nonlinear_arith);
}

proof fn lemma_base_pow_positive(k: nat)
    ensures
        base_pow(k) > 0,
    decreases k,
{
    if k > 0 {
        lemma_base_pow_positive((k - 1) as nat);
        let b = base_pow((k - 1) as nat);
        assert(limb_base() * b > 0) by (nonlinear_arith)
            requires
                b > 0,
                limb_base() > 0,
        ;
    }
}

proof fn lemma_prefix_bound(s: Seq<u64>, k: nat)
    ensures
        prefix_value(s, k) < base_pow(k),
    decreases k,
{
    if k > 0 {
        lemma_prefix_bound(s, (k - 1) as nat);
        let b = base_pow((k - 1) as nat);
        let x = s[k - 1] as nat;
        let p = prefix_value(s, (k - 1) as nat);
        assert(p + x * b < limb_base() * b) by (nonlinear_arith)
            requires
                p < b,
                x < limb_base(),
        ;
    }
}

proof fn lemma_base_pow_is_pow2(k: nat)
    ensures
        base_pow(k) == pow2(64 * k),
    decreases k,
{
    lemma2_to64();
    if k > 0 {
        lemma_base_pow_is_pow2((k - 1) as nat);
        lemma_pow2_adds(64, (64 * (k - 1)) as nat);
        assert(64 + 64 * (k - 1) == 64 * k);
    }
}

proof fn lemma_double_step(x: nat, p: nat, hi: nat, m: nat, t: nat, t2: nat, bit: nat)
    by (nonlinear_arith)
    requires
        x * p == hi * m + t,
        t2 + bit * m == 2 * t,
    ensures
        x * (2 * p) == (2 * hi + bit) * m + t2,
{
}

proof fn lemma_high_below(x: nat, p: nat, hi: nat, m: nat, t: nat)
    by (nonlinear_arith)
    requires
        x * p == hi * m + t,
        x < m,
        p > 0,
    ensures
        hi < p,
{
    if hi >= p {
        assert(hi * m >= p * m);
        assert(x * p < m * p);
    }
}

proof fn lemma_all_shifted(x: nat, hi: nat, m: nat, t: nat)
    by (nonlinear_arith)
    requires
        x * m == hi * m + t,
        t < m,
    ensures
        hi == x,
        t == 0,
{
    if hi < x {
        assert(x * m >= (hi + 1) * m);
    }
    if hi > x {
        assert(hi * m >= (x + 1) * m);
    }
}

proof fn lemma_product_monotone(a: nat, x: nat, y: nat)
    by (nonlinear_arith)
    requires
        x <= y,
    ensures
        a * x <= a * y,
{
}

/// A natural number below 2^768, held as twelve little-endian 64-bit limbs.
#[derive(Clone, Copy, Debug)]
pub struct Wide {
    limbs: [u64; 12],
}

impl View for Wide {
    type V = nat;

    closed spec fn view(&self) -> nat {
        prefix_value(self.limbs@, 12)
    }
}

impl Wide {
    /// The first number that a [`Wide`] cannot hold, 2^768.
    pub closed spec fn modulus() -> nat {
        base_pow(12)
    }

    /// The modulus is 2^768.
    pub proof fn lemma_modulus()
        ensures
            Self::modulus() == pow2(768),
    {
        lemma_base_pow_is_pow2(12);
    }

    /// The modulus is 2^768, and every value lies below it.
    pub proof fn lemma_bounded(self)
        ensures
            self@ < Self::modulus(),
            Self::modulus() == pow2(768),
    {
        lemma_prefix_bound(self.limbs@, 12);
        lemma_base_pow_is_pow2(12);
    }

    /// The number zero.
    pub fn zero() -> (r: Wide)
        ensures
            r@ == 0,
    {
        let r = Wide { limbs: [0u64; 12] };
        proof {
            reveal_with_fuel(prefix_value, 13);
            assert(forall|i: int| 0 <= i < 12 ==> r.limbs@[i] == 0);
            assert(r@ == 0) by (nonlinear_arith)
                requires
                    r@ == prefix_value(r.limbs@, 12),
                    prefix_value(r.limbs@, 12) == 0 + 0 * base_pow(0) + 0 * base_pow(1) + 0
                        * base_pow(2) + 0 * base_pow(3) + 0 * base_pow(4) + 0 * base_pow(5) + 0
                        * base_pow(6) + 0 * base_pow(7) + 0 * base_pow(8) + 0 * base_pow(9) + 0
                        * base_pow(10) + 0 * base_pow(11),
            ;
        }
        r
    }

    /// The number `x`.
    pub fn from_u128(x: u128) -> (r: Wide)
        ensures
            r@ == x,
    {
        let low: u64 = (x % 0x1_0000_0000_0000_0000) as u64;
        let high: u64 = (x / 0x1_0000_0000_0000_0000) as u64;
        let mut r = Wide::zero();
        let ghost zeros = r.limbs@;
        r.limbs[0] = low;
        r.limbs[1] = high;
        proof {
            lemma_small_powers();
            reveal_with_fuel(prefix_value, 3);
            assert(prefix_value(r.limbs@, 2) == low * 1 + high * limb_base());
            lemma_zero_above(zeros, r.limbs@, 2, 12);
        }
        r
    }

    /// The value as a `u128`, where it fits.
    pub fn to_u128(&self) -> (r: Option<u128>)
        ensures
            r == (if self@ <= u128::MAX {
                Some(self@ as u128)
            } else {
                None
            }),
    {
        let bound = Wide::two_pow_128();
        if self.lt(&bound) {
            let low: u128 = self.limbs[0] as u128;
            let high: u128 = self.limbs[1] as u128;
            proof {
                lemma_small_powers();
                reveal_with_fuel(prefix_value, 3);
                lemma_split_at(self.limbs@, 2, 12);
                let rest = upper_value(self.limbs@, 2, 12);
                let low_part = prefix_value(self.limbs@, 2);
                assert(rest == 0) by (nonlinear_arith)
                    requires
                        low_part + base_pow(2) * rest < base_pow(2),
                ;
                assert(base_pow(2) * rest == 0) by (nonlinear_arith)
                    requires
                        rest == 0,
                ;
                assert(low_part == low * 1 + high * limb_base());
            }
            Some(low + high * 0x1_0000_0000_0000_0000)
        } else {
            None
        }
    }

    /// The number 2^128.
    fn two_pow_128() -> (r: Wide)
        ensures
            r@ == 0x1_0000_0000_0000_0000_0000_0000_0000_0000,
    {
        let mut r = Wide::zero();
        let ghost zeros = r.limbs@;
        r.limbs[2] = 1;
        proof {
            lemma_small_powers();
            reveal_with_fuel(prefix_value, 4);
            assert(zeros[0] == 0 && zeros[1] == 0) by {
                lemma_zero_limbs(zeros, 12);
            }
            assert(prefix_value(r.limbs@, 3) == 0 * 1 + 0 * limb_base() + 1 * base_pow(2));
            lemma_zero_above(zeros, r.limbs@, 3, 12);
        }
        r
    }

    /// The number 2^384.
    pub fn two_pow_384() -> (r: Wide)
        ensures
            r@ == pow2(384),
    {
        let mut r = Wide::zero();
        let ghost zeros = r.limbs@;
        r.limbs[6] = 1;
        proof {
            lemma_zero_limbs(zeros, 12);
            lemma_prefix_frame(zeros, r.limbs@, 6);
            lemma_zero_value(zeros, 6);
            assert(prefix_value(r.limbs@, 7) == prefix_value(r.limbs@, 6) + 1 * base_pow(6));
            lemma_zero_above(zeros, r.limbs@, 7, 12);
            lemma_base_pow_is_pow2(6);
        }
        r
    }

    /// The number that six limbs denote.
    pub fn from_limbs(limbs: &[u64; 6]) -> (r: Wide)
        ensures
            r@ == limbs_value(limbs@),
            r@ < pow2(384),
    {
        let mut r = Wide::zero();
        let ghost zeros = r.limbs@;
        let mut i: usize = 0;
        while i < 6
            invariant
                i <= 6,
                prefix_value(zeros, 12) == 0,
                forall|j: int| 0 <= j < i ==> r.limbs@[j] == limbs@[j],
                forall|j: int| i <= j < 12 ==> r.limbs@[j] == zeros[j],
            decreases 6 - i,
        {
            r.limbs[i] = limbs[i];
            i += 1;
        }
        proof {
            lemma_zero_above(zeros, r.limbs@, 6, 12);
            lemma_prefix_frame(r.limbs@, limbs@, 6);
            lemma_prefix_bound(limbs@, 6);
            lemma_base_pow_is_pow2(6);
        }
        r
    }

    /// The six lowest limbs of a number below 2^384: they denote it.
    pub fn to_limbs(&self) -> (r: [u64; 6])
        requires
            self@ < pow2(384),
        ensures
            limbs_value(r@) == self@,
    {
        let mut r = [0u64; 6];
        let mut i: usize = 0;
        while i < 6
            invariant
                i <= 6,
                forall|j: int| 0 <= j < i ==> r@[j] == self.limbs@[j],
            decreases 6 - i,
        {
            r[i] = self.limbs[i];
            i += 1;
        }
        proof {
            lemma_split_at(self.limbs@, 6, 12);
            lemma_base_pow_is_pow2(6);
            let rest = upper_value(self.limbs@, 6, 12);
            let low = prefix_value(self.limbs@, 6);
            assert(rest == 0) by (nonlinear_arith)
                requires
                    low + base_pow(6) * rest < base_pow(6),
            ;
            assert(base_pow(6) * rest == 0) by (nonlinear_arith)
                requires
                    rest == 0,
            ;
            lemma_prefix_frame(r@, self.limbs@, 6);
        }
        r
    }

    /// `self + other + carry_in` modulo 2^768, and whether it wrapped.
    pub fn add_carry(&self, other: &Wide, carry_in: bool) -> (out: (Wide, bool))
        ensures
            out.0@ + (if out.1 {
                Self::modulus()
            } else {
                0
            }) == self@ + other@ + (if carry_in {
                1nat
            } else {
                0
            }),
    {
        let mut r = Wide::zero();
        let mut carry: u64 = if carry_in {
            1
        } else {
            0
        };
        let ghost cin: nat = carry as nat;
        let mut i: usize = 0;
        while i < 12
            invariant
                i <= 12,
                carry <= 1,
                prefix_value(r.limbs@, i as nat) + carry * base_pow(i as nat) == prefix_value(
                    self.limbs@,
                    i as nat,
                ) + prefix_value(other.limbs@, i as nat) + cin,
            decreases 12 - i,
        {
            let sum: u128 = self.limbs[i] as u128 + other.limbs[i] as u128 + carry as u128;
            let low: u64 = (sum % 0x1_0000_0000_0000_0000) as u64;
            let next: u64 = (sum / 0x1_0000_0000_0000_0000) as u64;
            let ghost before = r.limbs@;
            r.limbs[i] = low;
            proof {
                lemma_prefix_frame(before, r.limbs@, i as nat);
                let bp = base_pow(i as nat);
                let a = self.limbs@[i as int] as nat;
                let b = other.limbs@[i as int] as nat;
                let c = carry as nat;
                let l = low as nat;
                let n = next as nat;
                assert(l * bp + n * (limb_base() * bp) == a * bp + b * bp + c * bp)
                    by (nonlinear_arith)
                    requires
                        l + n * limb_base() == a + b + c,
                ;
            }
            carry = next;
            i += 1;
        }
        (r, carry == 1)
    }

    /// `self - other` modulo 2^768, and whether it borrowed.
    pub fn sub_borrow(&self, other: &Wide) -> (out: (Wide, bool))
        ensures
            out.0@ == self@ - other@ + (if out.1 {
                Self::modulus() as int
            } else {
                0
            }),
            out.1 == (self@ < other@),
    {
        let mut r = Wide::zero();
        let mut borrow: u64 = 0;
        let mut i: usize = 0;
        while i < 12
            invariant
                i <= 12,
                borrow <= 1,
                prefix_value(r.limbs@, i as nat) == prefix_value(self.limbs@, i as nat)
                    - prefix_value(other.limbs@, i as nat) + borrow * base_pow(i as nat),
            decreases 12 - i,
        {
            let t: u128 = self.limbs[i] as u128 + 0x1_0000_0000_0000_0000 - other.limbs[i] as u128
                - borrow as u128;
            let low: u64 = (t % 0x1_0000_0000_0000_0000) as u64;
            let next: u64 = 1 - (t / 0x1_0000_0000_0000_0000) as u64;
            let ghost before = r.limbs@;
            r.limbs[i] = low;
            proof {
                lemma_prefix_frame(before, r.limbs@, i as nat);
                let bp = base_pow(i as nat) as int;
                let a = self.limbs@[i as int] as int;
                let b = other.limbs@[i as int] as int;
                let c = borrow as int;
                let l = low as int;
                let n = next as int;
                assert(l * bp == a * bp - b * bp - c * bp + n * (limb_base() * bp))
                    by (nonlinear_arith)
                    requires
                        l == a - b - c + n * limb_base(),
                ;
            }
            borrow = next;
            i += 1;
        }
        proof {
            lemma_prefix_bound(r.limbs@, 12);
            lemma_prefix_bound(self.limbs@, 12);
            lemma_prefix_bound(other.limbs@, 12);
        }
        (r, borrow == 1)
    }

    /// Whether `self < other`.
    pub fn lt(&self, other: &Wide) -> (r: bool)
        ensures
            r == (self@ < other@),
    {
        self.sub_borrow(other).1
    }

    /// Whether `self <= other`.
    pub fn le(&self, other: &Wide) -> (r: bool)
        ensures
            r == (self@ <= other@),
    {
        !other.sub_borrow(self).1
    }

    /// Whether the two numbers are the same.
    pub fn same(&self, other: &Wide) -> (r: bool)
        ensures
            r == (self@ == other@),
    {
        !self.sub_borrow(other).1 && !other.sub_borrow(self).1
    }

    /// Whether the number is zero.
    pub fn is_zero(&self) -> (r: bool)
        ensures
            r == (self@ == 0),
    {
        let z = Wide::zero();
        self.le(&z)
    }

    /// The sum, where it is below 2^768.
    pub fn checked_add(&self, other: &Wide) -> (r: Option<Wide>)
        ensures
            r matches Some(s) ==> s@ == self@ + other@,
            r is Some <==> self@ + other@ < Self::modulus(),
    {
        let (s, carry) = self.add_carry(other, false);
        proof {
            s.lemma_bounded();
        }
        if carry {
            None
        } else {
            Some(s)
        }
    }

    /// The difference, where it is not negative.
    pub fn checked_sub(&self, other: &Wide) -> (r: Option<Wide>)
        ensures
            r matches Some(s) ==> s@ == self@ - other@,
            r is Some <==> self@ >= other@,
    {
        let (s, borrow) = self.sub_borrow(other);
        if borrow {
            None
        } else {
            Some(s)
        }
    }

    /// `acc * 2^64 + a * x`, where that is below 2^768: one step of the
    /// multiplication limb by limb.
    fn mul_add_shift(acc: &Wide, a: &Wide, x: u64) -> (r: Wide)
        requires
            acc@ * limb_base() + a@ * (x as nat) < Self::modulus(),
        ensures
            r@ == acc@ * limb_base() + a@ * (x as nat),
    {
        let mut r = Wide::zero();
        let mut carry: u64 = 0;
        let mut j: usize = 0;
        proof {
            assert(limb_base() * 0 == 0) by (nonlinear_arith);
            assert(0 * (x as nat) == 0) by (nonlinear_arith);
            assert(0 * base_pow(0) == 0) by (nonlinear_arith);
        }
        while j < 12
            invariant
                j <= 12,
                prefix_value(r.limbs@, j as nat) + carry * base_pow(j as nat) == limb_base()
                    * shifted_value(acc.limbs@, j as nat) + prefix_value(a.limbs@, j as nat) * (
                x as nat),
            decreases 12 - j,
        {
            let prev: u128 = if j == 0 {
                0
            } else {
                acc.limbs[j - 1] as u128
            };
            assert((a.limbs@[j as int] as u128) * (x as u128) <= 0xffff_ffff_ffff_fffe_0000_0000_0000_0001u128)
                by (nonlinear_arith)
                requires
                    a.limbs@[j as int] <= 0xffff_ffff_ffff_ffffu64,
                    x <= 0xffff_ffff_ffff_ffffu64,
            ;
            let t: u128 = prev + (a.limbs[j] as u128) * (x as u128) + carry as u128;
            let low: u64 = (t % 0x1_0000_0000_0000_0000) as u64;
            let next: u64 = (t / 0x1_0000_0000_0000_0000) as u64;
            let ghost before = r.limbs@;
            r.limbs[j] = low;
            proof {
                lemma_prefix_frame(before, r.limbs@, j as nat);
                let bp = base_pow(j as nat);
                let al = a.limbs@[j as int] as nat;
                let xn = x as nat;
                let c = carry as nat;
                let l = low as nat;
                let n = next as nat;
                let pr = prev as nat;
                let sh = shifted_value(acc.limbs@, j as nat);
                let sh2 = shifted_value(acc.limbs@, (j + 1) as nat);
                let pa = prefix_value(a.limbs@, j as nat);
                assert(limb_base() * sh2 == limb_base() * sh + pr * bp) by {
                    if j == 0 {
                        assert(sh2 == 0 && sh == 0 && pr == 0);
                        assert(0 * bp == 0) by (nonlinear_arith);
                    } else {
                        let lower = base_pow((j - 1) as nat);
                        assert(bp == limb_base() * lower);
                        assert(sh2 == sh + pr * lower);
                        assert(limb_base() * (sh + pr * lower) == limb_base() * sh + pr * (
                        limb_base() * lower)) by (nonlinear_arith);
                    }
                }
                assert(l * bp + n * (limb_base() * bp) == pr * bp + (al * bp) * xn + c * bp)
                    by (nonlinear_arith)
                    requires
                        l + n * limb_base() == pr + al * xn + c,
                ;
                assert((pa + al * bp) * xn == pa * xn + (al * bp) * xn) by (nonlinear_arith);
            }
            carry = next;
            j += 1;
        }
        proof {
            let m = Self::modulus();
            let top = acc.limbs@[11] as nat;
            let low_part = prefix_value(acc.limbs@, 11);
            let total = acc@ * limb_base() + a@ * (x as nat);
            lemma_prefix_bound(r.limbs@, 12);
            assert(m == limb_base() * base_pow(11));
            assert(acc@ == low_part + top * base_pow(11));
            assert(total == limb_base() * low_part + top * m + a@ * (x as nat)) by (nonlinear_arith)
                requires
                    total == acc@ * limb_base() + a@ * (x as nat),
                    acc@ == low_part + top * base_pow(11),
                    m == limb_base() * base_pow(11),
            ;
            let c = carry as nat;
            assert(c + top == 0) by (nonlinear_arith)
                requires
                    r@ + c * m + top * m == total,
                    total < m,
            ;
            assert(0 * m == 0) by (nonlinear_arith);
        }
        r
    }

    /// The product of two numbers whose product is below 2^768.
    pub fn mul(&self, other: &Wide) -> (r: Wide)
        requires
            self@ * other@ < Self::modulus(),
        ensures
            r@ == self@ * other@,
    {
        let mut acc = Wide::zero();
        let mut i: usize = 12;
        proof {
            assert(self@ * 0 == 0) by (nonlinear_arith);
        }
        while i > 0
            invariant
                i <= 12,
                acc@ == self@ * upper_value(other.limbs@, i as nat, 12),
                self@ * other@ < Self::modulus(),
            decreases i,
        {
            i -= 1;
            proof {
                let up = upper_value(other.limbs@, (i + 1) as nat, 12);
                let up2 = upper_value(other.limbs@, i as nat, 12);
                let x = other.limbs@[i as int] as nat;
                lemma_upper_horner(other.limbs@, i as nat, 12);
                lemma_split_at(other.limbs@, i as nat, 12);
                lemma_base_pow_positive(i as nat);
                let low = prefix_value(other.limbs@, i as nat);
                let bp = base_pow(i as nat);
                assert(up2 <= other@) by (nonlinear_arith)
                    requires
                        other@ == low + bp * up2,
                        bp >= 1,
                ;
                lemma_product_monotone(self@, up2, other@);
                assert(self@ * up2 == (self@ * up) * limb_base() + self@ * x) by (nonlinear_arith)
                    requires
                        up2 == x + limb_base() * up,
                ;
            }
            acc = Self::mul_add_shift(&acc, self, other.limbs[i]);
        }
        proof {
            lemma_split_at(other.limbs@, 0, 12);
            assert(base_pow(0) * upper_value(other.limbs@, 0, 12) == upper_value(
                other.limbs@,
                0,
                12,
            )) by (nonlinear_arith)
                requires
                    base_pow(0) == 1,
            ;
        }
        acc
    }

    /// Quotient and remainder of the division by a non-zero number of one
    /// limb.
    pub fn div_limb(&self, divisor: u64) -> (out: (Wide, u64))
        requires
            divisor > 0,
        ensures
            out.0@ == self@ / (divisor as nat),
            out.1 == self@ % (divisor as nat),
    {
        let mut q = Wide::zero();
        let mut rem: u64 = 0;
        let mut i: usize = 12;
        proof {
            assert(0 * (divisor as nat) == 0) by (nonlinear_arith);
        }
        while i > 0
            invariant
                i <= 12,
                divisor > 0,
                rem < divisor,
                upper_value(self.limbs@, i as nat, 12) == upper_value(q.limbs@, i as nat, 12) * (
                divisor as nat) + rem,
            decreases i,
        {
            i -= 1;
            let ghost d = divisor as nat;
            assert((rem as u128) * 0x1_0000_0000_0000_0000 + (self.limbs@[i as int] as u128) < (
            divisor as u128) * 0x1_0000_0000_0000_0000) by (nonlinear_arith)
                requires
                    rem < divisor,
                    self.limbs@[i as int] < 0x1_0000_0000_0000_0000u128,
            ;
            assert((divisor as u128) * 0x1_0000_0000_0000_0000 <= 0xffff_ffff_ffff_ffff_0000_0000_0000_0000u128)
                by (nonlinear_arith)
                requires
                    divisor <= 0xffff_ffff_ffff_ffffu64,
            ;
            let cur: u128 = (rem as u128) * 0x1_0000_0000_0000_0000 + (self.limbs[i] as u128);
            let digit: u128 = cur / (divisor as u128);
            let next: u128 = cur % (divisor as u128);
            proof {
                vstd::arithmetic::div_mod::lemma_fundamental_div_mod(cur as int, divisor as int);
                vstd::arithmetic::div_mod::lemma_mod_bound(cur as int, divisor as int);
                assert(digit < 0x1_0000_0000_0000_0000u128) by (nonlinear_arith)
                    requires
                        cur < (divisor as u128) * 0x1_0000_0000_0000_0000,
                        cur == (divisor as u128) * digit + next,
                        divisor > 0,
                ;
            }
            let ghost before = q.limbs@;
            q.limbs[i] = digit as u64;
            proof {
                lemma_upper_frame(before, q.limbs@, (i + 1) as nat, 12);
                lemma_upper_horner(q.limbs@, i as nat, 12);
                lemma_upper_horner(self.limbs@, i as nat, 12);
                let ua = upper_value(self.limbs@, (i + 1) as nat, 12);
                let uq = upper_value(q.limbs@, (i + 1) as nat, 12);
                let a = self.limbs@[i as int] as nat;
                let r0 = rem as nat;
                let dg = digit as nat;
                let nx = next as nat;
                assert(a + limb_base() * ua == (dg + limb_base() * uq) * d + nx) by (nonlinear_arith)
                    requires
                        ua == uq * d + r0,
                        r0 * limb_base() + a == d * dg + nx,
                ;
            }
            rem = next as u64;
        }
        proof {
            lemma_split_at(self.limbs@, 0, 12);
            lemma_split_at(q.limbs@, 0, 12);
            assert(base_pow(0) == 1);
            let ua = upper_value(self.limbs@, 0, 12);
            let uq = upper_value(q.limbs@, 0, 12);
            assert(1 * ua == ua && 1 * uq == uq) by (nonlinear_arith);
            lemma_fundamental_div_mod_converse(
                self@ as int,
                divisor as int,
                q@ as int,
                rem as int,
            );
        }
        (q, rem)
    }

    /// Quotient and remainder of the division by a non-zero number.
    pub fn div_rem(&self, divisor: &Wide) -> (out: (Wide, Wide))
        requires
            divisor@ > 0,
        ensures
            out.0@ == self@ / divisor@,
            out.1@ == self@ % divisor@,
    {
        match divisor.to_u128() {
            Some(d) => {
                if d <= 0xffff_ffff_ffff_ffff {
                    let (q, r) = self.div_limb(d as u64);
                    return (q, Wide::from_u128(r as u128));
                }
            },
            None => {},
        }
        let mut q = Wide::zero();
        let mut r = Wide::zero();
        let mut t = *self;
        let ghost mut hi: nat = 0;
        let mut k: u32 = 0;
        proof {
            lemma2_to64();
            assert(self@ * pow2(0) == 0 * Self::modulus() + t@) by (nonlinear_arith)
                requires
                    pow2(0) == 1,
                    t@ == self@,
            ;
            assert(0 == 0 * divisor@ + 0) by (nonlinear_arith);
        }
        while k < 768
            invariant
                k <= 768,
                divisor@ > 0,
                self@ * pow2(k as nat) == hi * Self::modulus() + t@,
                hi == q@ * divisor@ + r@,
                r@ < divisor@,
            decreases 768 - k,
        {
            let (t2, bit) = t.add_carry(&t, false);
            let (q2, cq) = q.add_carry(&q, false);
            let (r2, cr) = r.add_carry(&r, bit);
            let ghost b: nat = if bit {
                1
            } else {
                0
            };
            let ghost hi2: nat = 2 * hi + b;
            proof {
                let m = Self::modulus();
                t.lemma_bounded();
                self.lemma_bounded();
                divisor.lemma_bounded();
                q2.lemma_bounded();
                r2.lemma_bounded();
                lemma_pow2_unfold((k + 1) as nat);
                lemma_pow2_pos(k as nat);
                lemma_pow2_pos((k + 1) as nat);
                if k + 1 < 768 {
                    vstd::arithmetic::power2::lemma_pow2_strictly_increases(
                        (k + 1) as nat,
                        768,
                    );
                }
                assert(b * m == if bit {
                    m
                } else {
                    0
                }) by (nonlinear_arith)
                    requires
                        b == (if bit {
                            1nat
                        } else {
                            0
                        }),
                ;
                lemma_double_step(self@, pow2(k as nat), hi, m, t@, t2@, b);
                lemma_high_below(self@, pow2((k + 1) as nat), hi2, m, t2@);
                // q <= hi, so doubling it (and adding one) stays below the modulus
                assert(q@ <= hi) by (nonlinear_arith)
                    requires
                        hi == q@ * divisor@ + r@,
                        divisor@ > 0,
                ;
                assert(hi2 == (2 * q@) * divisor@ + (2 * r@ + b)) by (nonlinear_arith)
                    requires
                        hi2 == 2 * hi + b,
                        hi == q@ * divisor@ + r@,
                ;
                assert(hi2 == (2 * q@ + 1) * divisor@ + (2 * r@ + b - divisor@))
                    by (nonlinear_arith)
                    requires
                        hi2 == (2 * q@) * divisor@ + (2 * r@ + b),
                ;
            }
            let fits = if cr {
                true
            } else {
                divisor.le(&r2)
            };
            if fits {
                let (r3, _) = r2.sub_borrow(divisor);
                let (q3, cq3) = q2.add_carry(&Wide::zero(), true);
                proof {
                    r3.lemma_bounded();
                    q3.lemma_bounded();
                }
                r = r3;
                q = q3;
            } else {
                r = r2;
                q = q2;
            }
            t = t2;
            proof {
                hi = hi2;
            }
            k += 1;
        }
        proof {
            t.lemma_bounded();
            lemma_all_shifted(self@, hi, Self::modulus(), t@);
            lemma_fundamental_div_mod_converse(
                self@ as int,
                divisor@ as int,
                q@ as int,
                r@ as int,
            );
        }
        (q, r)
    }
}

/// `(a * b + extra) / d`, where that is a `u128`.
pub fn mul_div_u128(a: u128, b: u128, extra: u128, d: u128) -> (r: Option<u128>)
    requires
        d > 0,
    ensures
        r == (if ((a as nat) * (b as nat) + (extra as nat)) / (d as nat) <= u128::MAX {
            Some((((a as nat) * (b as nat) + (extra as nat)) / (d as nat)) as u128)
        } else {
            None
        }),
{
    let wa = Wide::from_u128(a);
    let wb = Wide::from_u128(b);
    proof {
        let t: nat = 0x1_0000_0000_0000_0000_0000_0000_0000_0000nat;
        lemma2_to64();
        lemma_pow2_adds(64, 64);
        lemma_pow2_adds(128, 128);
        lemma_pow2_unfold(257);
        vstd::arithmetic::power2::lemma_pow2_strictly_increases(257, 768);
        Wide::lemma_modulus();
        assert(pow2(64) * pow2(64) == t) by (nonlinear_arith)
            requires
                pow2(64) == 0x1_0000_0000_0000_0000,
                t == 0x1_0000_0000_0000_0000_0000_0000_0000_0000nat,
        ;
        assert((a as nat) * (b as nat) + (extra as nat) < 2 * (t * t)) by (nonlinear_arith)
            requires
                (a as nat) < t,
                (b as nat) < t,
                (extra as nat) < t,
                t > 0,
        {
            assert((a as nat) * (b as nat) <= (t - 1) * (t - 1));
        }
    }
    let product = wa.mul(&wb);
    let (sum, carry) = product.add_carry(&Wide::from_u128(extra), false);
    proof {
        sum.lemma_bounded();
    }
    let (q, _) = sum.div_rem(&Wide::from_u128(d));
    q.to_u128()
}

/// The number denoted by the limbs below `j`, shifted up by one limb: the
/// limbs below `j - 1`.
spec fn shifted_value(s: Seq<u64>, j: nat) -> nat {
    if j == 0 {
        0
    } else {
        prefix_value(s, (j - 1) as nat)
    }
}

/// The number denoted by limbs `from..to`, counted from limb `from`.
spec fn upper_value(s: Seq<u64>, from: nat, to: nat) -> nat
    decreases to,
{
    if to <= from {
        0
    } else {
        upper_value(s, from, (to - 1) as nat) + (s[to - 1] as nat) * base_pow(
            (to - 1 - from) as nat,
        )
    }
}

/// The upper limbs by Horner's rule: the lowest of them, and the rest one
/// limb higher.
proof fn lemma_upper_horner(s: Seq<u64>, from: nat, to: nat)
    requires
        from < to,
    ensures
        upper_value(s, from, to) == (s[from as int] as nat) + limb_base() * upper_value(
            s,
            from + 1,
            to,
        ),
    decreases to,
{
    if to == from + 1 {
        assert(upper_value(s, from, from) == 0);
        assert(upper_value(s, from + 1, to) == 0);
        assert((s[from as int] as nat) * base_pow(0) == s[from as int] as nat) by (nonlinear_arith)
            requires
                base_pow(0) == 1,
        ;
        assert(limb_base() * 0 == 0) by (nonlinear_arith);
    } else {
        lemma_upper_horner(s, from, (to - 1) as nat);
        let x = s[to - 1] as nat;
        let b = base_pow((to - 2 - from) as nat);
        let u = upper_value(s, from + 1, (to - 1) as nat);
        assert(base_pow((to - 1 - from) as nat) == limb_base() * b);
        assert(limb_base() * (u + x * b) == limb_base() * u + x * (limb_base() * b))
            by (nonlinear_arith);
    }
}

/// Equal limbs denote equal numbers.
proof fn lemma_upper_frame(s1: Seq<u64>, s2: Seq<u64>, from: nat, to: nat)
    requires
        forall|j: int| from <= j < to ==> s1[j] == s2[j],
    ensures
        upper_value(s1, from, to) == upper_value(s2, from, to),
    decreases to,
{
    if to > from {
        lemma_upper_frame(s1, s2, from, (to - 1) as nat);
    }
}

proof fn lemma_base_pow_adds(a: nat, b: nat)
    ensures
        base_pow(a + b) == base_pow(a) * base_pow(b),
    decreases b,
{
    if b == 0 {
        assert(base_pow(a) * 1 == base_pow(a)) by (nonlinear_arith);
    } else {
        lemma_base_pow_adds(a, (b - 1) as nat);
        let x = base_pow(a);
        let y = base_pow((b - 1) as nat);
        assert(limb_base() * (x * y) == x * (limb_base() * y)) by (nonlinear_arith);
        assert(a + b - 1 == a + (b - 1));
    }
}

proof fn lemma_split_at(s: Seq<u64>, from: nat, to: nat)
    requires
        from <= to,
    ensures
        prefix_value(s, to) == prefix_value(s, from) + base_pow(from) * upper_value(s, from, to),
    decreases to,
{
    if to == from {
        assert(base_pow(from) * 0 == 0) by (nonlinear_arith);
    } else {
        lemma_split_at(s, from, (to - 1) as nat);
        lemma_base_pow_adds(from, (to - 1 - from) as nat);
        let x = s[to - 1] as nat;
        let bf = base_pow(from);
        let br = base_pow((to - 1 - from) as nat);
        let u = upper_value(s, from, (to - 1) as nat);
        assert(bf * (u + x * br) == bf * u + x * (bf * br)) by (nonlinear_arith);
    }
}

proof fn lemma_zero_limbs(s: Seq<u64>, k: nat)
    requires
        prefix_value(s, k) == 0,
    ensures
        forall|j: int| 0 <= j < k ==> s[j] == 0,
    decreases k,
{
    if k > 0 {
        lemma_base_pow_positive((k - 1) as nat);
        let x = s[k - 1] as nat;
        let b = base_pow((k - 1) as nat);
        assert(x == 0) by (nonlinear_arith)
            requires
                x * b == 0,
                b > 0,
        ;
        lemma_zero_limbs(s, (k - 1) as nat);
    }
}

proof fn lemma_zero_value(s: Seq<u64>, k: nat)
    requires
        forall|j: int| 0 <= j < k ==> s[j] == 0,
    ensures
        prefix_value(s, k) == 0,
    decreases k,
{
    if k > 0 {
        lemma_zero_value(s, (k - 1) as nat);
        let b = base_pow((k - 1) as nat);
        assert(0 * b == 0) by (nonlinear_arith);
    }
}

/// Limbs `from..to` of `s` are those of the zero number `zeros`, so they add
/// nothing to the value.
proof fn lemma_zero_above(zeros: Seq<u64>, s: Seq<u64>, from: nat, to: nat)
    requires
        from <= to,
        prefix_value(zeros, to) == 0,
        forall|j: int| from <= j < to ==> s[j] == zeros[j],
    ensures
        prefix_value(s, to) == prefix_value(s, from),
    decreases to,
{
    if to > from {
        lemma_zero_limbs(zeros, to);
        lemma_zero_above(zeros, s, from, (to - 1) as nat);
        let b = base_pow((to - 1) as nat);
        assert(0 * b == 0) by (nonlinear_arith);
    }
}

} // verus!

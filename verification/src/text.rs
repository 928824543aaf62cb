//! Decimals in digits.

use crate::big_decimal::{BigDecimal, BIG_DIVISOR};
use crate::wide::Wide;
use vstd::prelude::*;

verus! {

/// The character of a digit.
pub open spec fn digit_char(d: nat) -> char {
    if d == 0 {
        '0'
    } else if d == 1 {
        '1'
    } else if d == 2 {
        '2'
    } else if d == 3 {
        '3'
    } else if d == 4 {
        '4'
    } else if d == 5 {
        '5'
    } else if d == 6 {
        '6'
    } else if d == 7 {
        '7'
    } else if d == 8 {
        '8'
    } else {
        '9'
    }
}

/// A natural number in decimal digits, without leading zeros.
pub open spec fn digits(n: nat) -> Seq<char>
    decreases n,
{
    if n < 10 {
        seq![digit_char(n)]
    } else {
        digits(n / 10).push(digit_char(n % 10))
    }
}

/// The `width` lowest decimal digits of a natural number, with leading
/// zeros.
pub open spec fn fixed_digits(n: nat, width: nat) -> Seq<char>
    decreases width,
{
    if width == 0 {
        Seq::<char>::empty()
    } else {
        fixed_digits(n / 10, (width - 1) as nat).push(digit_char(n % 10))
    }
}

/// A sequence of digits without its trailing zeros.
pub open spec fn trimmed(s: Seq<char>) -> Seq<char>
    decreases s.len(),
{
    if s.len() > 0 && s.last() == '0' {
        trimmed(s.drop_last())
    } else {
        s
    }
}

/// A decimal in digits: its whole part, a point, and its fraction without
/// trailing zeros; a whole number shows one zero after the point.
pub open spec fn spec_text(mantissa: nat) -> Seq<char> {
    let whole = mantissa / (BIG_DIVISOR as nat);
    let fraction = mantissa % (BIG_DIVISOR as nat);
    if fraction > 0 {
        digits(whole) + seq!['.'] + trimmed(fixed_digits(fraction, 27))
    } else {
        digits(whole) + seq!['.', '0']
    }
}

/// The digit as a string.
fn digit_str(d: u8) -> (r: &'static str)
    requires
        d < 10,
    ensures
        r@ == seq![digit_char(d as nat)],
{
    proof {
        reveal_strlit("0");
        reveal_strlit("1");
        reveal_strlit("2");
        reveal_strlit("3");
        reveal_strlit("4");
        reveal_strlit("5");
        reveal_strlit("6");
        reveal_strlit("7");
        reveal_strlit("8");
        reveal_strlit("9");
    }
    let r = if d == 0 {
        "0"
    } else if d == 1 {
        "1"
    } else if d == 2 {
        "2"
    } else if d == 3 {
        "3"
    } else if d == 4 {
        "4"
    } else if d == 5 {
        "5"
    } else if d == 6 {
        "6"
    } else if d == 7 {
        "7"
    } else if d == 8 {
        "8"
    } else {
        "9"
    };
    assert(r@ =~= seq![digit_char(d as nat)]);
    r
}

/// Writes a number in decimal digits to the end of `out`.
fn write_digits(n: &Wide, out: &mut String)
    ensures
        final(out)@ == old(out)@ + digits(n@),
    decreases n@,
{
    let ten = Wide::from_u128(10);
    if n.lt(&ten) {
        let d = match n.to_u128() {
            Some(d) => d as u8,
            None => 0,
        };
        out.append(digit_str(d));
    } else {
        let (q, r) = n.div_rem(&ten);
        let d = match r.to_u128() {
            Some(d) => d as u8,
            None => 0,
        };
        let ghost before = out@;
        write_digits(&q, out);
        out.append(digit_str(d));
        assert(out@ =~= before + digits(n@));
    }
}

/// Writes the `width` lowest decimal digits of a number to the end of
/// `out`.
fn write_fixed(n: u128, width: u8, out: &mut String)
    ensures
        final(out)@ == old(out)@ + fixed_digits(n as nat, width as nat),
    decreases width,
{
    if width > 0 {
        let ghost before = out@;
        write_fixed(n / 10, width - 1, out);
        out.append(digit_str((n % 10) as u8));
        assert(out@ =~= before + fixed_digits(n as nat, width as nat));
    } else {
        assert(out@ =~= out@ + Seq::<char>::empty());
    }
}

/// Digits that end in a zero lose it when they are trimmed; others stay.
proof fn lemma_trimmed_step(n: nat, width: nat)
    requires
        width > 0,
    ensures
        n % 10 == 0 ==> trimmed(fixed_digits(n, width)) == trimmed(
            fixed_digits(n / 10, (width - 1) as nat),
        ),
        n % 10 != 0 ==> trimmed(fixed_digits(n, width)) == fixed_digits(n, width),
{
    let s = fixed_digits(n, width);
    assert(s.last() == digit_char(n % 10));
    assert(s.drop_last() =~= fixed_digits(n / 10, (width - 1) as nat));
}

impl BigDecimal {
    /// The decimal in digits: its whole part, a point, and its fraction
    /// without trailing zeros.  A whole number shows one zero after the
    /// point.
    pub fn to_text(&self) -> (r: String)
        ensures
            r@ == spec_text(self@),
    {
        let (whole, rest) = self.mantissa().div_rem(&Wide::from_u128(BIG_DIVISOR));
        let fraction = match rest.to_u128() {
            Some(f) => f,
            None => 0,
        };
        let mut out = String::new();
        write_digits(&whole, &mut out);
        proof {
            reveal_strlit(".");
            reveal_strlit(".0");
        }
        if fraction > 0 {
            out.append(".");
            let mut n = fraction;
            let mut width: u8 = 27;
            while n % 10 == 0 && width > 0
                invariant
                    width <= 27,
                    n > 0,
                    trimmed(fixed_digits(fraction as nat, 27)) == trimmed(
                        fixed_digits(n as nat, width as nat),
                    ),
                decreases width,
            {
                proof {
                    lemma_trimmed_step(n as nat, width as nat);
                }
                n = n / 10;
                width = width - 1;
            }
            proof {
                if width > 0 {
                    lemma_trimmed_step(n as nat, width as nat);
                } else {
                    assert(fixed_digits(n as nat, 0) =~= Seq::<char>::empty());
                }
            }
            let ghost before = out@;
            write_fixed(n, width, &mut out);
            assert(out@ =~= spec_text(self@));
        } else {
            out.append(".0");
            assert(out@ =~= spec_text(self@));
        }
        out
    }
}

} // verus!

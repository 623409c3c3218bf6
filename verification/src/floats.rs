use vstd::prelude::*;

use crate::bignum::{big_div, is_dec_digit, times_pow2, trunc_div, BigNum};
use crate::lexer::scan_number;
use vstd::arithmetic::power2::{lemma_pow2_pos, pow2};
use rustc_apfloat::Float;

verus! {

/// A double-precision floating-point value, carried as its IEEE 754
/// bit pattern. Arithmetic on it is delegated to rustc_apfloat, which
/// implements the IEEE operations exactly.
#[derive(Debug, Clone, Copy, PartialEq, Eq, Structural)]
pub struct Float64 {
    pub bits: u64,
}

impl Float64 {
    pub fn from_bits(bits: u64) -> (r: Float64)
        ensures
            r.bits == bits,
    {
        Float64 { bits }
    }

    pub fn to_bits(&self) -> (r: u64)
        ensures
            r == self.bits,
    {
        self.bits
    }
}

/// The IEEE 754 sum of two doubles, round to nearest, ties to even,
/// as bit patterns.
pub uninterp spec fn f64_add(a: u64, b: u64) -> u64;

/// The IEEE 754 difference, as `f64_add`.
pub uninterp spec fn f64_sub(a: u64, b: u64) -> u64;

/// The IEEE 754 product, as `f64_add`.
pub uninterp spec fn f64_mul(a: u64, b: u64) -> u64;

/// The IEEE 754 quotient, as `f64_add`.
pub uninterp spec fn f64_div(a: u64, b: u64) -> u64;

/// The double nearest the decimal number the string spells, as a bit
/// pattern; `None` where the string does not spell a number.
pub uninterp spec fn f64_of_decimal(s: Seq<char>) -> Option<u64>;

/// The double with the given bit pattern, truncated toward zero to an
/// integer; `None` for NaN and the infinities. IEEE 754 binary64: a
/// sign bit, eleven exponent bits biased by 1023, and 52 significand
/// bits; a nonzero exponent field prefixes the significand with an
/// implicit leading one, and a zero exponent field names a subnormal,
/// whose magnitude is below one and truncates to zero.
pub open spec fn spec_f64_trunc(bits: u64) -> Option<int> {
    let sign = bits as int / 0x8000_0000_0000_0000;
    let e = (bits as int / 0x10_0000_0000_0000) % 0x800;
    let m = bits as int % 0x10_0000_0000_0000;
    if e == 0x7ff {
        None
    } else {
        let mag = if e == 0 {
            0
        } else if e < 1075 {
            (0x10_0000_0000_0000 + m) / pow2((1075 - e) as nat) as int
        } else {
            (0x10_0000_0000_0000 + m) * pow2((e - 1075) as nat)
        };
        Some(
            if sign == 1 {
                -mag
            } else {
                mag
            },
        )
    }
}

/// A whole-string float literal as the lexer recognizes them.
pub open spec fn is_float_literal_chars(s: Seq<char>) -> bool {
    scan_number(s, 0) == Some((true, s.len() as int))
}

/// An optional minus sign followed by one or more decimal digits.
pub open spec fn is_signed_digits(s: Seq<char>) -> bool {
    if s.len() > 0 && s[0] == '-' {
        s.len() > 1 && forall|i: int| 1 <= i < s.len() ==> is_dec_digit(s[i])
    } else {
        s.len() > 0 && forall|i: int| 0 <= i < s.len() ==> is_dec_digit(s[i])
    }
}

/// Relies on rustc_apfloat's `Double::add_r` with round to nearest,
/// ties to even: the IEEE 754 sum.
#[verifier::external_body]
pub(crate) fn float_add(a: u64, b: u64) -> (r: u64)
    ensures
        r == f64_add(a, b),
{
    let x = rustc_apfloat::ieee::Double::from_bits(a as u128);
    let y = rustc_apfloat::ieee::Double::from_bits(b as u128);
    x.add_r(y, rustc_apfloat::Round::NearestTiesToEven).value.to_bits() as u64
}

/// Relies on rustc_apfloat's `Double::sub_r`: the IEEE 754 difference.
#[verifier::external_body]
pub(crate) fn float_sub(a: u64, b: u64) -> (r: u64)
    ensures
        r == f64_sub(a, b),
{
    let x = rustc_apfloat::ieee::Double::from_bits(a as u128);
    let y = rustc_apfloat::ieee::Double::from_bits(b as u128);
    x.sub_r(y, rustc_apfloat::Round::NearestTiesToEven).value.to_bits() as u64
}

/// Relies on rustc_apfloat's `Double::mul_r`: the IEEE 754 product.
#[verifier::external_body]
pub(crate) fn float_mul(a: u64, b: u64) -> (r: u64)
    ensures
        r == f64_mul(a, b),
{
    let x = rustc_apfloat::ieee::Double::from_bits(a as u128);
    let y = rustc_apfloat::ieee::Double::from_bits(b as u128);
    x.mul_r(y, rustc_apfloat::Round::NearestTiesToEven).value.to_bits() as u64
}

/// Relies on rustc_apfloat's `Double::div_r`: the IEEE 754 quotient
/// (zero divisors give an infinity or NaN, never a panic).
#[verifier::external_body]
pub(crate) fn float_div(a: u64, b: u64) -> (r: u64)
    ensures
        r == f64_div(a, b),
{
    let x = rustc_apfloat::ieee::Double::from_bits(a as u128);
    let y = rustc_apfloat::ieee::Double::from_bits(b as u128);
    x.div_r(y, rustc_apfloat::Round::NearestTiesToEven).value.to_bits() as u64
}

/// Relies on rustc_apfloat's `Double` `FromStr`: correctly rounded
/// decimal-to-double conversion, which accepts every string whose
/// shape is a float literal of the lexer or an optionally signed
/// digit run.
#[verifier::external_body]
pub(crate) fn float_parse(s: &str) -> (r: Option<u64>)
    ensures
        r == f64_of_decimal(s@),
        is_float_literal_chars(s@) ==> r is Some,
        is_signed_digits(s@) ==> r is Some,
{
    let parsed: Result<rustc_apfloat::ieee::Double, _> = s.parse();
    match parsed {
        Ok(d) => Some(d.to_bits() as u64),
        Err(_) => None,
    }
}

/// Truncates the double with the given bit pattern toward zero, for
/// every finite double; `None` for NaN and the infinities.
pub(crate) fn float_trunc(bits: u64) -> (r: Option<BigNum>)
    ensures
        match r {
            Some(b) => spec_f64_trunc(bits) == Some(b@) && b.wf(),
            None => spec_f64_trunc(bits) is None,
        },
{
    let sign: u64 = bits / 0x8000_0000_0000_0000;
    let e: u64 = (bits / 0x10_0000_0000_0000) % 0x800;
    let m: u64 = bits % 0x10_0000_0000_0000;
    if e == 0x7ff {
        return None;
    }
    if e == 0 {
        return Some(BigNum::zero());
    }
    let significand = BigNum::from_u128((0x10_0000_0000_0000u64 + m) as u128);
    let mag = if e >= 1075 {
        times_pow2(significand, e - 1075)
    } else {
        let divisor = times_pow2(BigNum::from_u128(1), 1075 - e);
        proof {
            lemma_pow2_pos((1075 - e) as nat);
            assert(trunc_div(significand@, divisor@) == significand@ / divisor@);
        }
        big_div(&significand, &divisor)
    };
    if sign == 1 {
        Some(mag.negated())
    } else {
        Some(mag)
    }
}

} // verus!

//! Numbers are IEEE-754 binary64 values held as their bit patterns. What can
//! be read off the encoding (sign, class, order, equality, negation, the
//! digits of a small whole number) is computed and proved here; the rounding
//! operations come from `rustc_apfloat`'s software binary64.
use rustc_apfloat::ieee::Double;
use rustc_apfloat::{Float, Round};
use vstd::prelude::*;

use crate::text::{decimal, decimal_text};

verus! {

pub const SIGN_BIT: u64 = 0x8000_0000_0000_0000;

pub const MAGNITUDE_MASK: u64 = 0x7fff_ffff_ffff_ffff;

pub const INFINITY_BITS: u64 = 0x7ff0_0000_0000_0000;

pub const FRACTION_MASK: u64 = 0x000f_ffff_ffff_ffff;

pub const HIDDEN_BIT: u64 = 0x0010_0000_0000_0000;

/// The encoding without its sign bit.
pub open spec fn magnitude(b: u64) -> u64 {
    b & MAGNITUDE_MASK
}

pub open spec fn is_negative(b: u64) -> bool {
    b >= SIGN_BIT
}

pub open spec fn is_nan(b: u64) -> bool {
    magnitude(b) > INFINITY_BITS
}

pub open spec fn is_infinite(b: u64) -> bool {
    magnitude(b) == INFINITY_BITS
}

/// Among values that are not NaN, binary64 order is the order of the signed
/// magnitude of the encoding (both zeros map to 0).
pub open spec fn order_key(b: u64) -> int {
    if is_negative(b) {
        -(magnitude(b) as int)
    } else {
        magnitude(b) as int
    }
}

/// IEEE-754 `<` on two encodings.
pub open spec fn float_lt(a: u64, b: u64) -> bool {
    !is_nan(a) && !is_nan(b) && order_key(a) < order_key(b)
}

/// IEEE-754 `==` on two encodings: NaN equals nothing, and `-0 == +0`.
pub open spec fn float_eq(a: u64, b: u64) -> bool {
    !is_nan(a) && !is_nan(b) && order_key(a) == order_key(b)
}

/// IEEE-754 negation flips the sign bit and nothing else.
pub open spec fn float_neg(b: u64) -> u64 {
    b ^ SIGN_BIT
}

/// The binary64 sum of two encodings, rounded to nearest, ties to even.
pub uninterp spec fn float_sum(a: u64, b: u64) -> u64;

/// The binary64 difference of two encodings, rounded to nearest, ties to even.
pub uninterp spec fn float_difference(a: u64, b: u64) -> u64;

/// The binary64 product of two encodings, rounded to nearest, ties to even.
pub uninterp spec fn float_product(a: u64, b: u64) -> u64;

/// The binary64 quotient of two encodings, rounded to nearest, ties to even.
pub uninterp spec fn float_quotient(a: u64, b: u64) -> u64;

/// The binary64 value nearest to a decimal numeral.
pub uninterp spec fn decimal_value(text: Seq<char>) -> u64;

/// The decimal text that `rustc_apfloat` prints for an encoding.
pub uninterp spec fn float_text(b: u64) -> Seq<char>;

pub open spec fn is_ascii_digit(c: char) -> bool {
    '0' <= c && c <= '9'
}

/// A numeral of the language: one or more digits, optionally followed by a
/// dot and one or more digits.
pub open spec fn is_numeral(s: Seq<char>) -> bool {
    &&& s.len() > 0
    &&& is_ascii_digit(s[0])
    &&& forall|i: int| 0 <= i < s.len() ==> is_ascii_digit(s[i]) || s[i] == '.'
    &&& forall|i: int, j: int| 0 <= i < j < s.len() && s[i] == '.' ==> s[j] != '.'
    &&& is_ascii_digit(s.last())
}

pub fn less(a: u64, b: u64) -> (r: bool)
    ensures
        r == float_lt(a, b),
{
    !is_nan_bits(a) && !is_nan_bits(b) && order_key_of(a) < order_key_of(b)
}

pub fn equal(a: u64, b: u64) -> (r: bool)
    ensures
        r == float_eq(a, b),
{
    !is_nan_bits(a) && !is_nan_bits(b) && order_key_of(a) == order_key_of(b)
}

pub fn negate(b: u64) -> (r: u64)
    ensures
        r == float_neg(b),
{
    b ^ SIGN_BIT
}

fn is_nan_bits(b: u64) -> (r: bool)
    ensures
        r == is_nan(b),
{
    (b & MAGNITUDE_MASK) > INFINITY_BITS
}

fn order_key_of(b: u64) -> (r: i128)
    ensures
        r == order_key(b),
{
    let m = b & MAGNITUDE_MASK;
    if b >= SIGN_BIT {
        -(m as i128)
    } else {
        m as i128
    }
}

/// Relies on `rustc_apfloat`'s `Add for Double`: the binary64 sum, rounded
/// to nearest with ties to even, of the two decoded values.
#[verifier::external_body]
pub(crate) fn float_add(a: u64, b: u64) -> (r: u64)
    ensures
        r == float_sum(a, b),
{
    (Double::from_bits(a as u128) + Double::from_bits(b as u128)).value.to_bits() as u64
}

/// Relies on `rustc_apfloat`'s `Sub for Double`: the binary64 difference,
/// rounded to nearest with ties to even.
#[verifier::external_body]
pub(crate) fn float_sub(a: u64, b: u64) -> (r: u64)
    ensures
        r == float_difference(a, b),
{
    (Double::from_bits(a as u128) - Double::from_bits(b as u128)).value.to_bits() as u64
}

/// Relies on `rustc_apfloat`'s `Mul for Double`: the binary64 product,
/// rounded to nearest with ties to even.
#[verifier::external_body]
pub(crate) fn float_mul(a: u64, b: u64) -> (r: u64)
    ensures
        r == float_product(a, b),
{
    (Double::from_bits(a as u128) * Double::from_bits(b as u128)).value.to_bits() as u64
}

/// Relies on `rustc_apfloat`'s `Div for Double`: the binary64 quotient,
/// rounded to nearest with ties to even (a zero divisor gives an infinity or
/// NaN, never an error).
#[verifier::external_body]
pub(crate) fn float_div(a: u64, b: u64) -> (r: u64)
    ensures
        r == float_quotient(a, b),
{
    (Double::from_bits(a as u128) / Double::from_bits(b as u128)).value.to_bits() as u64
}

/// Relies on `Float::from_str_r` of `rustc_apfloat`'s `Double`: a decimal
/// numeral (digits, optionally a dot and digits) always parses, to the
/// nearest binary64 value.
#[verifier::external_body]
pub(crate) fn parse_decimal(text: &str) -> (r: u64)
    requires
        is_numeral(text@),
    ensures
        r == decimal_value(text@),
{
    Double::from_str_r(text, Round::NearestTiesToEven).unwrap().value.to_bits() as u64
}

/// Relies on `Display for Double` of `rustc_apfloat`: its decimal text of the
/// decoded value.
#[verifier::external_body]
fn apfloat_text(b: u64) -> (r: String)
    ensures
        r@ == float_text(b),
{
    Double::from_bits(b as u128).to_string()
}

/// The biased exponent field.
pub open spec fn exponent(b: u64) -> u64 {
    (b >> 52u64) & 0x7ffu64
}

/// The significand with its hidden leading bit, for a normal encoding.
pub open spec fn significand(b: u64) -> u64 {
    (b & FRACTION_MASK) | HIDDEN_BIT
}

/// A normal value of magnitude in `[1, 2^53)`: its whole part is the
/// significand shifted right by `1075 - exponent`.
pub open spec fn in_whole_range(b: u64) -> bool {
    1023 <= exponent(b) <= 1075
}

pub open spec fn whole_part(b: u64) -> u64 {
    significand(b) >> ((1075 - exponent(b)) as u64)
}

/// The value is a whole number of magnitude in `[1, 2^53)`.
pub open spec fn is_small_whole(b: u64) -> bool {
    in_whole_range(b) && significand(b) & (((1u64 << ((1075 - exponent(b)) as u64)) - 1) as u64)
        == 0
}

/// The display form of a number: whole numbers without a fractional part,
/// `NaN`, `inf` and `-inf` as Rust prints them, and any other value as
/// `rustc_apfloat` prints it.
pub open spec fn number_text(b: u64) -> Seq<char> {
    let sign: Seq<char> = if is_negative(b) {
        seq!['-']
    } else {
        seq![]
    };
    if is_nan(b) {
        "NaN"@
    } else if is_infinite(b) {
        sign + "inf"@
    } else if magnitude(b) == 0 {
        sign + "0"@
    } else if is_small_whole(b) {
        sign + decimal(whole_part(b) as nat)
    } else {
        float_text(b)
    }
}

/// The display form of a number.
pub fn number_to_text(b: u64) -> (r: String)
    ensures
        r@ == number_text(b),
{
    let sign = if b >= SIGN_BIT {
        String::from_str("-")
    } else {
        String::new()
    };
    proof {
        reveal_strlit("-");
    }
    let m = b & MAGNITUDE_MASK;
    if m > INFINITY_BITS {
        return String::from_str("NaN");
    }
    if m == INFINITY_BITS {
        return sign.concat("inf");
    }
    if m == 0 {
        return sign.concat("0");
    }
    let e = (b >> 52u64) & 0x7ffu64;
    if 1023 <= e && e <= 1075 {
        let sig = (b & FRACTION_MASK) | HIDDEN_BIT;
        let shift = 1075 - e;
        assert(1u64 << shift >= 1) by (bit_vector)
            requires
                shift < 64,
        ;
        let low = sig & ((1u64 << shift) - 1);
        if low == 0 {
            let digits = decimal_text(sig >> shift);
            return sign.concat(digits.as_str());
        }
    }
    apfloat_text(b)
}

} // verus!

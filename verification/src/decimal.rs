//! Trusted boundary around the `rust_decimal` crate.
//!
//! Number literal tokens carry an exact decimal value of the outside type
//! `rust_decimal::Decimal`. The tokenizer itself only assembles the digit
//! text of a literal; turning that text into a value, and scaling it by an
//! SI multiplier, is delegated to `rust_decimal` through the wrappers below.
//! Each wrapper's result is pinned to an uninterpreted name, so that every
//! contract built on top of them is exact up to those names.

use vstd::prelude::*;

verus! {

/// The 96-bit exact decimal number type of the `rust_decimal` crate,
/// declared so that it can appear in token payloads. Its inner structure
/// stays opaque to verification.
#[verifier::external_type_specification]
#[verifier::external_body]
pub struct ExDecimal(rust_decimal::Decimal);

/// Relies on `rust_decimal::Decimal` being `Copy`: its derived `clone`
/// returns the value itself.
pub assume_specification[ <rust_decimal::Decimal as core::clone::Clone>::clone ](
    v: &rust_decimal::Decimal,
) -> (r: rust_decimal::Decimal)
    ensures
        r == *v,
;

/// The value that `rust_decimal::Decimal::from_str` yields on the given
/// ASCII text, `None` standing for its error case.
pub uninterp spec fn decimal_from_str(digits: Seq<u8>) -> Option<rust_decimal::Decimal>;

/// The value that `rust_decimal::Decimal::from_scientific` yields on the
/// given ASCII text, `None` standing for its error case.
pub uninterp spec fn decimal_from_scientific(digits: Seq<u8>) -> Option<rust_decimal::Decimal>;

/// The decimal equal to the given 64-bit signed integer, as built by
/// `rust_decimal`'s `From<i64>` conversion.
pub uninterp spec fn decimal_of_i64(v: i64) -> rust_decimal::Decimal;

/// The value of `rust_decimal::Decimal::checked_mul`, `None` standing for
/// overflow.
pub uninterp spec fn decimal_checked_mul(
    a: rust_decimal::Decimal,
    b: rust_decimal::Decimal,
) -> Option<rust_decimal::Decimal>;

/// The decimal that `rust_decimal::Decimal::from_parts` builds from a raw
/// 96-bit mantissa, sign and scale.
pub uninterp spec fn decimal_from_parts(
    lo: u32,
    mid: u32,
    hi: u32,
    negative: bool,
    scale: u32,
) -> rust_decimal::Decimal;

/// Relies on `rust_decimal::Decimal`'s `FromStr` impl: parses plain decimal
/// text such as `-12.34`; the result depends on the text alone.
#[verifier::external_body]
pub fn dec_from_str(digits: &Vec<u8>) -> (r: Option<rust_decimal::Decimal>)
    ensures
        r == decimal_from_str(digits@),
{
    match core::str::from_utf8(digits.as_slice()) {
        Ok(s) => <rust_decimal::Decimal as core::str::FromStr>::from_str(s).ok(),
        Err(_) => None,
    }
}

/// Relies on `rust_decimal::Decimal::from_scientific`: parses text of the
/// shape `12.3e-4`; the result depends on the text alone.
#[verifier::external_body]
pub fn dec_from_scientific(digits: &Vec<u8>) -> (r: Option<rust_decimal::Decimal>)
    ensures
        r == decimal_from_scientific(digits@),
{
    match core::str::from_utf8(digits.as_slice()) {
        Ok(s) => rust_decimal::Decimal::from_scientific(s).ok(),
        Err(_) => None,
    }
}

/// Relies on `rust_decimal`'s `From<i64>` impl, which is exact for every
/// 64-bit signed integer.
#[verifier::external_body]
pub fn dec_of_i64(v: i64) -> (r: rust_decimal::Decimal)
    ensures
        r == decimal_of_i64(v),
{
    rust_decimal::Decimal::from(v)
}

/// Relies on `rust_decimal::Decimal::checked_mul`: exact multiplication,
/// `None` on overflow.
#[verifier::external_body]
pub fn dec_checked_mul(
    a: rust_decimal::Decimal,
    b: rust_decimal::Decimal,
) -> (r: Option<rust_decimal::Decimal>)
    ensures
        r == decimal_checked_mul(a, b),
{
    a.checked_mul(b)
}

/// Relies on `rust_decimal::Decimal::from_parts`, which panics when the
/// scale exceeds 28, and otherwise builds the decimal
/// `(lo + mid * 2^32 + hi * 2^64) * 10^-scale` with the given sign.
#[verifier::external_body]
pub fn dec_from_parts(lo: u32, mid: u32, hi: u32, negative: bool, scale: u32) -> (r:
    rust_decimal::Decimal)
    requires
        scale <= 28,
    ensures
        r == decimal_from_parts(lo, mid, hi, negative, scale),
{
    rust_decimal::Decimal::from_parts(lo, mid, hi, negative, scale)
}

/// The fixed 28-significant-digit value of the literal `π`.
pub open spec fn spec_pi() -> rust_decimal::Decimal {
    decimal_from_parts(1102470953, 185874565, 1703060790, false, 28)
}

/// The 28-digit constant emitted for the `π` literal.
pub fn dec_pi() -> (r: rust_decimal::Decimal)
    ensures
        r == spec_pi(),
{
    dec_from_parts(1102470953, 185874565, 1703060790, false, 28)
}

} // verus!

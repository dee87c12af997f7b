//! Double-precision arithmetic on raw bit patterns.
//!
//! The language's numbers are IEEE-754 doubles. Verified code carries them
//! as `u64` bit patterns; the arithmetic itself, the reading of a numeric
//! literal and the decimal rendering are delegated to the `rustc_apfloat`
//! crate, a faithful software implementation of IEEE-754. Each operation
//! is deterministic in its arguments, so its result is given a name that
//! the callers' contracts speak of.

use vstd::prelude::*;

use rustc_apfloat::Float;
use rustc_apfloat::ieee::Double;

verus! {

/// The bit pattern of the IEEE-754 double sum of two doubles given as bit
/// patterns, rounding to nearest, ties to even.
pub uninterp spec fn spec_add_bits(a: u64, b: u64) -> u64;

/// The bit pattern of the difference of two doubles given as bit patterns.
pub uninterp spec fn spec_sub_bits(a: u64, b: u64) -> u64;

/// The bit pattern of the product of two doubles given as bit patterns.
pub uninterp spec fn spec_mul_bits(a: u64, b: u64) -> u64;

/// The bit pattern of the quotient of two doubles given as bit patterns.
pub uninterp spec fn spec_div_bits(a: u64, b: u64) -> u64;

/// The double, as a bit pattern, that a piece of text denotes, or `None`
/// where the text is not a numeric literal.
pub uninterp spec fn spec_parse_fnum(s: Seq<char>) -> Option<u64>;

/// The decimal rendering of the double with the given bit pattern.
pub uninterp spec fn spec_render_fnum(bits: u64) -> Seq<char>;

/// Relies on rustc_apfloat's `Double` addition (IEEE-754 binary64,
/// round to nearest, ties to even): the result depends on the two bit
/// patterns alone.
#[verifier::external_body]
pub fn add_bits(a: u64, b: u64) -> (r: u64)
    ensures
        r == spec_add_bits(a, b),
{
    (Double::from_bits(a as u128) + Double::from_bits(b as u128)).value.to_bits() as u64
}

/// Relies on rustc_apfloat's `Double` subtraction: the result depends on
/// the two bit patterns alone.
#[verifier::external_body]
pub fn sub_bits(a: u64, b: u64) -> (r: u64)
    ensures
        r == spec_sub_bits(a, b),
{
    (Double::from_bits(a as u128) - Double::from_bits(b as u128)).value.to_bits() as u64
}

/// Relies on rustc_apfloat's `Double` multiplication: the result depends
/// on the two bit patterns alone.
#[verifier::external_body]
pub fn mul_bits(a: u64, b: u64) -> (r: u64)
    ensures
        r == spec_mul_bits(a, b),
{
    (Double::from_bits(a as u128) * Double::from_bits(b as u128)).value.to_bits() as u64
}

/// Relies on rustc_apfloat's `Double` division: the result depends on the
/// two bit patterns alone. Division by zero yields an infinity or a NaN,
/// never a failure.
#[verifier::external_body]
pub fn div_bits(a: u64, b: u64) -> (r: u64)
    ensures
        r == spec_div_bits(a, b),
{
    (Double::from_bits(a as u128) / Double::from_bits(b as u128)).value.to_bits() as u64
}

/// Relies on rustc_apfloat's `Double::from_str`: whether a token denotes
/// a number, and which one, depends on its characters alone.
#[verifier::external_body]
pub fn parse_fnum(s: &str) -> (r: Option<u64>)
    ensures
        r == spec_parse_fnum(s@),
{
    match s.parse::<Double>() {
        Ok(d) => Some(d.to_bits() as u64),
        Err(_) => None,
    }
}

/// Relies on rustc_apfloat's `Display` for `Double`: the decimal rendering
/// of a double depends on its bit pattern alone.
#[verifier::external_body]
pub fn render_fnum(bits: u64) -> (r: String)
    ensures
        r@ == spec_render_fnum(bits),
{
    format!("{}", Double::from_bits(bits as u128))
}

} // verus!

//! Trusted bridge to IEEE 754 double-precision arithmetic.
//!
//! Runtime floating-point values are carried through the library as their
//! 64-bit IEEE 754 bit patterns. Every operation on them is performed by
//! `rustc_apfloat`'s `ieee::Double`, a software implementation of IEEE 754
//! binary64 arithmetic, behind the trusted wrappers below. Each wrapper's
//! result is named by an uninterpreted specification function: the same
//! operands always give the same result, and contracts elsewhere in the
//! library speak of those names exactly.

use vstd::prelude::*;
use rustc_apfloat::Float;

verus! {

pub uninterp spec fn float_of_text(s: Seq<char>) -> Option<u64>;

pub uninterp spec fn float_add(a: u64, b: u64) -> u64;

pub uninterp spec fn float_sub(a: u64, b: u64) -> u64;

pub uninterp spec fn float_mul(a: u64, b: u64) -> u64;

pub uninterp spec fn float_div(a: u64, b: u64) -> u64;

pub uninterp spec fn float_neg(a: u64) -> u64;

pub uninterp spec fn float_eq(a: u64, b: u64) -> bool;

pub uninterp spec fn float_lt(a: u64, b: u64) -> bool;

pub uninterp spec fn float_le(a: u64, b: u64) -> bool;

pub uninterp spec fn float_gt(a: u64, b: u64) -> bool;

pub uninterp spec fn float_ge(a: u64, b: u64) -> bool;

pub uninterp spec fn float_text(a: u64) -> Seq<char>;

/// Relies on `rustc_apfloat::ieee::Double`'s `FromStr`: parsing a decimal
/// or hexadecimal floating-point literal depends on the text alone, and
/// invalid text gives an error rather than a value.
#[verifier::external_body]
pub(crate) fn parse_float(s: &str) -> (r: Option<u64>)
    ensures
        r == float_of_text(s@),
{
    match s.parse::<rustc_apfloat::ieee::Double>() {
        Ok(d) => Some(d.to_bits() as u64),
        Err(_) => None,
    }
}

/// Relies on `rustc_apfloat::ieee::Double::add_r` (round to nearest even):
/// IEEE 754 addition of the two bit patterns.
#[verifier::external_body]
pub(crate) fn add_floats(a: u64, b: u64) -> (r: u64)
    ensures
        r == float_add(a, b),
{
    let x = rustc_apfloat::ieee::Double::from_bits(a as u128);
    let y = rustc_apfloat::ieee::Double::from_bits(b as u128);
    (x + y).value.to_bits() as u64
}

/// Relies on `rustc_apfloat::ieee::Double::sub_r` (round to nearest even):
/// IEEE 754 subtraction of the two bit patterns.
#[verifier::external_body]
pub(crate) fn sub_floats(a: u64, b: u64) -> (r: u64)
    ensures
        r == float_sub(a, b),
{
    let x = rustc_apfloat::ieee::Double::from_bits(a as u128);
    let y = rustc_apfloat::ieee::Double::from_bits(b as u128);
    (x - y).value.to_bits() as u64
}

/// Relies on `rustc_apfloat::ieee::Double::mul_r` (round to nearest even):
/// IEEE 754 multiplication of the two bit patterns.
#[verifier::external_body]
pub(crate) fn mul_floats(a: u64, b: u64) -> (r: u64)
    ensures
        r == float_mul(a, b),
{
    let x = rustc_apfloat::ieee::Double::from_bits(a as u128);
    let y = rustc_apfloat::ieee::Double::from_bits(b as u128);
    (x * y).value.to_bits() as u64
}

/// Relies on `rustc_apfloat::ieee::Double::div_r` (round to nearest even):
/// IEEE 754 division of the two bit patterns.
#[verifier::external_body]
pub(crate) fn div_floats(a: u64, b: u64) -> (r: u64)
    ensures
        r == float_div(a, b),
{
    let x = rustc_apfloat::ieee::Double::from_bits(a as u128);
    let y = rustc_apfloat::ieee::Double::from_bits(b as u128);
    (x / y).value.to_bits() as u64
}

/// Relies on `rustc_apfloat::ieee::Double`'s `Neg`: IEEE 754 negation of
/// the bit pattern.
#[verifier::external_body]
pub(crate) fn neg_float(a: u64) -> (r: u64)
    ensures
        r == float_neg(a),
{
    (-rustc_apfloat::ieee::Double::from_bits(a as u128)).to_bits() as u64
}

/// Relies on `rustc_apfloat::ieee::Double`'s `PartialEq`: IEEE 754 equality
/// of the two bit patterns.
#[verifier::external_body]
pub(crate) fn eq_floats(a: u64, b: u64) -> (r: bool)
    ensures
        r == float_eq(a, b),
{
    rustc_apfloat::ieee::Double::from_bits(a as u128) == rustc_apfloat::ieee::Double::from_bits(
        b as u128,
    )
}

/// Relies on `rustc_apfloat::ieee::Double`'s `PartialOrd`: IEEE 754
/// less-than of the two bit patterns.
#[verifier::external_body]
pub(crate) fn lt_floats(a: u64, b: u64) -> (r: bool)
    ensures
        r == float_lt(a, b),
{
    rustc_apfloat::ieee::Double::from_bits(a as u128) < rustc_apfloat::ieee::Double::from_bits(
        b as u128,
    )
}

/// Relies on `rustc_apfloat::ieee::Double`'s `PartialOrd`: IEEE 754
/// less-or-equal of the two bit patterns.
#[verifier::external_body]
pub(crate) fn le_floats(a: u64, b: u64) -> (r: bool)
    ensures
        r == float_le(a, b),
{
    rustc_apfloat::ieee::Double::from_bits(a as u128) <= rustc_apfloat::ieee::Double::from_bits(
        b as u128,
    )
}

/// Relies on `rustc_apfloat::ieee::Double`'s `PartialOrd`: IEEE 754
/// greater-than of the two bit patterns.
#[verifier::external_body]
pub(crate) fn gt_floats(a: u64, b: u64) -> (r: bool)
    ensures
        r == float_gt(a, b),
{
    rustc_apfloat::ieee::Double::from_bits(a as u128) > rustc_apfloat::ieee::Double::from_bits(
        b as u128,
    )
}

/// Relies on `rustc_apfloat::ieee::Double`'s `PartialOrd`: IEEE 754
/// greater-or-equal of the two bit patterns.
#[verifier::external_body]
pub(crate) fn ge_floats(a: u64, b: u64) -> (r: bool)
    ensures
        r == float_ge(a, b),
{
    rustc_apfloat::ieee::Double::from_bits(a as u128) >= rustc_apfloat::ieee::Double::from_bits(
        b as u128,
    )
}

/// Relies on `rustc_apfloat::ieee::Double`'s `Display`: the decimal
/// rendering of a bit pattern depends on the bit pattern alone.
#[verifier::external_body]
pub(crate) fn float_to_string(a: u64) -> (r: String)
    ensures
        r@ == float_text(a),
{
    format!("{}", rustc_apfloat::ieee::Double::from_bits(a as u128))
}

} // verus!

//! IEEE 754 double-precision values, carried as their 64-bit patterns.
//!
//! The four primitive operations and the literal conversion are performed by
//! `rustc_apfloat`'s software implementation of IEEE 754 `binary64`, whose
//! add, subtract, multiply, divide and decimal conversion (all correctly
//! rounded, ties to even) agree bit for bit with hardware arithmetic.
//! Division by zero is not an error: it yields an infinity or NaN pattern
//! that propagates like any other value.
use vstd::prelude::*;
use rustc_apfloat::Float;

verus! {

/// The bit pattern that the decimal literal `s` encodes.
pub uninterp spec fn bits_of_literal(s: Seq<char>) -> u64;

/// The bit pattern of the IEEE sum of the values `a` and `b` encode.
pub uninterp spec fn add_bits(a: u64, b: u64) -> u64;

/// The bit pattern of the IEEE difference of the values `a` and `b` encode.
pub uninterp spec fn sub_bits(a: u64, b: u64) -> u64;

/// The bit pattern of the IEEE product of the values `a` and `b` encode.
pub uninterp spec fn mul_bits(a: u64, b: u64) -> u64;

/// The bit pattern of the IEEE quotient of the values `a` and `b` encode.
pub uninterp spec fn div_bits(a: u64, b: u64) -> u64;

/// Relies on `rustc_apfloat::ieee::Double`'s `FromStr` (correctly rounded,
/// ties to even): the encoded value depends on the characters alone. Text
/// that the conversion rejects is mapped to the all-zero pattern, likewise a
/// function of the characters alone.
#[verifier::external_body]
pub(crate) fn literal_bits(s: &str) -> (r: u64)
    ensures
        r == bits_of_literal(s@),
{
    match s.parse::<rustc_apfloat::ieee::Double>() {
        Ok(v) => v.to_bits() as u64,
        Err(_) => 0,
    }
}

/// Relies on `rustc_apfloat::ieee::Double::add_r` (round to nearest, ties to
/// even), reached through `+`: the sum's bit pattern is a function of the
/// operands' bit patterns alone.
#[verifier::external_body]
pub(crate) fn add_values(a: u64, b: u64) -> (r: u64)
    ensures
        r == add_bits(a, b),
{
    let x = rustc_apfloat::ieee::Double::from_bits(a as u128);
    let y = rustc_apfloat::ieee::Double::from_bits(b as u128);
    (x + y).value.to_bits() as u64
}

/// Relies on `rustc_apfloat::ieee::Double::sub_r` (round to nearest, ties to
/// even), reached through `-`: the difference's bit pattern is a function of
/// the operands' bit patterns alone.
#[verifier::external_body]
pub(crate) fn sub_values(a: u64, b: u64) -> (r: u64)
    ensures
        r == sub_bits(a, b),
{
    let x = rustc_apfloat::ieee::Double::from_bits(a as u128);
    let y = rustc_apfloat::ieee::Double::from_bits(b as u128);
    (x - y).value.to_bits() as u64
}

/// Relies on `rustc_apfloat::ieee::Double::mul_r` (round to nearest, ties to
/// even), reached through `*`: the product's bit pattern is a function of
/// the operands' bit patterns alone.
#[verifier::external_body]
pub(crate) fn mul_values(a: u64, b: u64) -> (r: u64)
    ensures
        r == mul_bits(a, b),
{
    let x = rustc_apfloat::ieee::Double::from_bits(a as u128);
    let y = rustc_apfloat::ieee::Double::from_bits(b as u128);
    (x * y).value.to_bits() as u64
}

/// Relies on `rustc_apfloat::ieee::Double::div_r` (round to nearest, ties to
/// even), reached through `/`: the quotient's bit pattern is a function of
/// the operands' bit patterns alone; division by zero yields an infinity or
/// NaN pattern, never a failure.
#[verifier::external_body]
pub(crate) fn div_values(a: u64, b: u64) -> (r: u64)
    ensures
        r == div_bits(a, b),
{
    let x = rustc_apfloat::ieee::Double::from_bits(a as u128);
    let y = rustc_apfloat::ieee::Double::from_bits(b as u128);
    (x / y).value.to_bits() as u64
}

} // verus!

use vstd::prelude::*;

use rustc_apfloat::Float;
use rustc_apfloat::ieee::Double;

verus! {

// IEEE-754 binary64 arithmetic on bit patterns. Each operation below is a
// pure function of its argument patterns alone — the same bits give the same
// bits on every machine — so each gets a name, and a wrapper whose call is
// trusted to return that name's value. The carrier is rustc_apfloat, the
// Rust port of LLVM's APFloat, whose arithmetic rounds to nearest, ties to
// even, as hardware binary64 does.

/// The binary64 sum of the two patterns, rounded to nearest, ties to even.
pub uninterp spec fn add_of(a: u64, b: u64) -> u64;

/// The binary64 difference of the two patterns, rounded to nearest, ties to even.
pub uninterp spec fn sub_of(a: u64, b: u64) -> u64;

/// The binary64 product of the two patterns, rounded to nearest, ties to even.
pub uninterp spec fn mul_of(a: u64, b: u64) -> u64;

/// The binary64 quotient of the two patterns, rounded to nearest, ties to even.
pub uninterp spec fn div_of(a: u64, b: u64) -> u64;

/// Relies on rustc_apfloat::ieee::Double: from_bits, the Add impl (add_r with
/// round to nearest, ties to even), to_bits.
#[verifier::external_body]
pub(crate) fn add_bits(a: u64, b: u64) -> (r: u64)
    ensures
        r == add_of(a, b),
{
    (Double::from_bits(a as u128) + Double::from_bits(b as u128)).value.to_bits() as u64
}

/// Relies on rustc_apfloat::ieee::Double: from_bits, the Sub impl (sub_r with
/// round to nearest, ties to even), to_bits.
#[verifier::external_body]
pub(crate) fn sub_bits(a: u64, b: u64) -> (r: u64)
    ensures
        r == sub_of(a, b),
{
    (Double::from_bits(a as u128) - Double::from_bits(b as u128)).value.to_bits() as u64
}

/// Relies on rustc_apfloat::ieee::Double: from_bits, the Mul impl (mul_r with
/// round to nearest, ties to even), to_bits.
#[verifier::external_body]
pub(crate) fn mul_bits(a: u64, b: u64) -> (r: u64)
    ensures
        r == mul_of(a, b),
{
    (Double::from_bits(a as u128) * Double::from_bits(b as u128)).value.to_bits() as u64
}

/// Relies on rustc_apfloat::ieee::Double: from_bits, the Div impl (div_r with
/// round to nearest, ties to even), to_bits.
#[verifier::external_body]
pub(crate) fn div_bits(a: u64, b: u64) -> (r: u64)
    ensures
        r == div_of(a, b),
{
    (Double::from_bits(a as u128) / Double::from_bits(b as u128)).value.to_bits() as u64
}

} // verus!

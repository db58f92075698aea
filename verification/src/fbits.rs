//! IEEE-754 double-precision values carried as their 64-bit patterns.
//!
//! The compiler never computes with host floating point: a float constant
//! is its bit pattern (`u64`), and every arithmetic step goes through
//! `rustc_apfloat`, a deterministic software implementation of IEEE-754
//! binary64. Each operation below is named by an uninterpreted spec
//! function of the operand bits; the classification predicates (NaN,
//! infinity, zero) are ordinary bit tests on the documented binary64
//! layout, verified here.

use vstd::prelude::*;
use rustc_apfloat::Float;
use rustc_apfloat::Round;
use rustc_apfloat::ieee::Double;

verus! {

/// Bits of the exponent field of a binary64 pattern.
pub open spec fn exp_field(b: u64) -> u64 {
    (b >> 52) & 0x7ff
}

/// Bits of the significand field of a binary64 pattern.
pub open spec fn frac_field(b: u64) -> u64 {
    b & 0xf_ffff_ffff_ffff
}

/// The pattern denotes a NaN: exponent field all ones, significand nonzero.
pub open spec fn f64_is_nan(b: u64) -> bool {
    exp_field(b) == 0x7ff && frac_field(b) != 0
}

/// The pattern denotes +inf or -inf: exponent field all ones, significand zero.
pub open spec fn f64_is_inf(b: u64) -> bool {
    exp_field(b) == 0x7ff && frac_field(b) == 0
}

/// The pattern denotes +0.0 or -0.0.
pub open spec fn f64_is_zero(b: u64) -> bool {
    b == 0u64 || b == 0x8000_0000_0000_0000u64
}

/// Negation of a binary64 value flips exactly the sign bit (IEEE-754 5.5.1).
pub open spec fn f64_neg_bits(b: u64) -> u64 {
    b ^ 0x8000_0000_0000_0000u64
}

/// Exponent field all ones and significand nonzero, as exec code.
pub fn is_nan_bits(b: u64) -> (r: bool)
    ensures
        r == f64_is_nan(b),
{
    (b >> 52u64) & 0x7ffu64 == 0x7ffu64 && b & 0xf_ffff_ffff_ffffu64 != 0u64
}

/// Exponent field all ones and significand zero, as exec code.
pub fn is_inf_bits(b: u64) -> (r: bool)
    ensures
        r == f64_is_inf(b),
{
    (b >> 52u64) & 0x7ffu64 == 0x7ffu64 && b & 0xf_ffff_ffff_ffffu64 == 0u64
}

/// The two zero patterns, as exec code.
pub fn is_zero_bits(b: u64) -> (r: bool)
    ensures
        r == f64_is_zero(b),
{
    b == 0u64 || b == 0x8000_0000_0000_0000u64
}

/// The bit pattern of the binary64 sum of the two operand patterns,
/// rounded to nearest, ties to even.
pub uninterp spec fn f64_add_bits(a: u64, b: u64) -> u64;

/// The bit pattern of the binary64 difference of the two operand patterns.
pub uninterp spec fn f64_sub_bits(a: u64, b: u64) -> u64;

/// The bit pattern of the binary64 product of the two operand patterns.
pub uninterp spec fn f64_mul_bits(a: u64, b: u64) -> u64;

/// The bit pattern of the binary64 quotient of the two operand patterns.
pub uninterp spec fn f64_div_bits(a: u64, b: u64) -> u64;

/// The bit pattern of the binary64 remainder (C `fmod`) of the operands.
pub uninterp spec fn f64_rem_bits(a: u64, b: u64) -> u64;

/// The bit pattern of the operand rounded toward negative infinity
/// to an integral value (`floor`).
pub uninterp spec fn f64_floor_bits(a: u64) -> u64;

/// IEEE numeric equality of the two operand patterns
/// (NaN equal to nothing, -0.0 equal to +0.0).
pub uninterp spec fn f64_num_eq(a: u64, b: u64) -> bool;

/// The operand pattern converted to a signed 64-bit integer, rounding
/// toward zero, saturating at the range ends, NaN giving zero.
pub uninterp spec fn f64_trunc_i64(a: u64) -> i64;

/// The bit pattern of the binary64 value nearest to the given integer,
/// ties to even.
pub uninterp spec fn i64_to_f64_bits(i: i64) -> u64;

/// Relies on `rustc_apfloat::ieee::Double::add_r` with round-to-nearest,
/// ties to even: deterministic IEEE-754 binary64 addition on bit patterns.
#[verifier::external_body]
pub(crate) fn float_add(a: u64, b: u64) -> (r: u64)
    ensures
        r == f64_add_bits(a, b),
{
    let v = Double::from_bits(a as u128).add_r(Double::from_bits(b as u128), Round::NearestTiesToEven);
    v.value.to_bits() as u64
}

/// Relies on `rustc_apfloat::ieee::Double::sub_r` with round-to-nearest,
/// ties to even: deterministic IEEE-754 binary64 subtraction on bit patterns.
#[verifier::external_body]
pub(crate) fn float_sub(a: u64, b: u64) -> (r: u64)
    ensures
        r == f64_sub_bits(a, b),
{
    let v = Double::from_bits(a as u128).sub_r(Double::from_bits(b as u128), Round::NearestTiesToEven);
    v.value.to_bits() as u64
}

/// Relies on `rustc_apfloat::ieee::Double::mul_r` with round-to-nearest,
/// ties to even: deterministic IEEE-754 binary64 multiplication on bit patterns.
#[verifier::external_body]
pub(crate) fn float_mul(a: u64, b: u64) -> (r: u64)
    ensures
        r == f64_mul_bits(a, b),
{
    let v = Double::from_bits(a as u128).mul_r(Double::from_bits(b as u128), Round::NearestTiesToEven);
    v.value.to_bits() as u64
}

/// Relies on `rustc_apfloat::ieee::Double::div_r` with round-to-nearest,
/// ties to even: deterministic IEEE-754 binary64 division on bit patterns.
#[verifier::external_body]
pub(crate) fn float_div(a: u64, b: u64) -> (r: u64)
    ensures
        r == f64_div_bits(a, b),
{
    let v = Double::from_bits(a as u128).div_r(Double::from_bits(b as u128), Round::NearestTiesToEven);
    v.value.to_bits() as u64
}

/// Relies on `rustc_apfloat::ieee::Double::c_fmod`: the C `fmod`
/// remainder, which is what `%` denotes on doubles.
#[verifier::external_body]
pub(crate) fn float_rem(a: u64, b: u64) -> (r: u64)
    ensures
        r == f64_rem_bits(a, b),
{
    let v = Double::from_bits(a as u128).c_fmod(Double::from_bits(b as u128));
    v.value.to_bits() as u64
}

/// Relies on `rustc_apfloat::ieee::Double::round_to_integral` with
/// rounding toward negative infinity: the `floor` of the operand.
#[verifier::external_body]
pub(crate) fn float_floor(a: u64) -> (r: u64)
    ensures
        r == f64_floor_bits(a),
{
    let v = Double::from_bits(a as u128).round_to_integral(Round::TowardNegative);
    v.value.to_bits() as u64
}

/// Relies on `rustc_apfloat::ieee::Double`'s `PartialEq`: IEEE numeric
/// equality (NaN unequal to everything, the two zeroes equal).
#[verifier::external_body]
pub(crate) fn float_num_eq(a: u64, b: u64) -> (r: bool)
    ensures
        r == f64_num_eq(a, b),
{
    Double::from_bits(a as u128) == Double::from_bits(b as u128)
}

/// Relies on `rustc_apfloat::ieee::Double::to_i128_r` at width 64,
/// rounding toward zero: saturates at the range ends and maps NaN to zero.
#[verifier::external_body]
pub(crate) fn float_trunc_i64(a: u64) -> (r: i64)
    ensures
        r == f64_trunc_i64(a),
{
    let mut exact = false;
    let v = Double::from_bits(a as u128).to_i128_r(64, Round::TowardZero, &mut exact);
    v.value as i64
}

/// Relies on `rustc_apfloat::ieee::Double::from_i128_r` with
/// round-to-nearest, ties to even: the double nearest to the integer.
#[verifier::external_body]
pub(crate) fn int_to_float(i: i64) -> (r: u64)
    ensures
        r == i64_to_f64_bits(i),
{
    let v = Double::from_i128_r(i as i128, Round::NearestTiesToEven);
    v.value.to_bits() as u64
}

} // verus!

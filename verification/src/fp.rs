//! Operations on IEEE-754 double-precision bit patterns.
//!
//! A value of type `u64` is read throughout this crate as the bit pattern of
//! a double-precision number. Comparisons are implemented here as verified
//! integer code with an exact specification; the rounding arithmetic
//! (addition, subtraction, multiplication, division, remainder, square root)
//! is delegated to software IEEE-754 implementations from outside crates,
//! each behind a trusted wrapper whose result is named by an uninterpreted
//! spec function: the result of each operation is a pure function of the
//! operand bit patterns alone.

use rustc_apfloat::Float;
use vstd::prelude::*;

verus! {

/// Mask of the sign bit of a double-precision bit pattern.
pub const SIGN_MASK: u64 = 0x8000_0000_0000_0000;

/// Mask of everything but the sign bit: the magnitude of the number.
pub const MAG_MASK: u64 = 0x7FFF_FFFF_FFFF_FFFF;

/// Mask of the biased exponent field.
pub const EXP_MASK: u64 = 0x7FF0_0000_0000_0000;

/// Mask of the fraction (trailing significand) field.
pub const FRAC_MASK: u64 = 0x000F_FFFF_FFFF_FFFF;

/// Bit pattern of positive zero.
pub const F64_ZERO: u64 = 0;

/// Bit pattern of the double-precision number two.
pub const F64_TWO: u64 = 0x4000_0000_0000_0000;

/// True iff the bit pattern denotes a NaN: exponent field all ones and a
/// non-zero fraction field.
pub open spec fn is_nan_bits(a: u64) -> bool {
    a & EXP_MASK == EXP_MASK && a & FRAC_MASK != 0
}

/// The magnitude of a bit pattern: the pattern with its sign bit cleared.
pub open spec fn magnitude(a: u64) -> u64 {
    a & MAG_MASK
}

/// True iff the sign bit is set (the number is negative or negative zero).
pub open spec fn sign_bit(a: u64) -> bool {
    a & SIGN_MASK != 0
}

/// IEEE-754 `<` on double-precision bit patterns.
///
/// Any comparison against a NaN is false. Positive and negative zero are
/// equal. Otherwise a negative number is below any positive one, positive
/// numbers order as their magnitudes do, and negative numbers order in
/// reverse of their magnitudes (for finite and infinite values alike, the
/// bit pattern of the magnitude is monotone in the value).
pub open spec fn lt_bits(a: u64, b: u64) -> bool {
    &&& !is_nan_bits(a)
    &&& !is_nan_bits(b)
    &&& if magnitude(a) == 0 && magnitude(b) == 0 {
            false
        } else if sign_bit(a) != sign_bit(b) {
            sign_bit(a)
        } else if !sign_bit(a) {
            magnitude(a) < magnitude(b)
        } else {
            magnitude(a) > magnitude(b)
        }
}

/// IEEE-754 `==` on double-precision bit patterns: equal patterns, or the
/// two zeros; never true of a NaN.
pub open spec fn eq_bits(a: u64, b: u64) -> bool {
    &&& !is_nan_bits(a)
    &&& !is_nan_bits(b)
    &&& a == b || (magnitude(a) == 0 && magnitude(b) == 0)
}

/// IEEE-754 `<=` on double-precision bit patterns.
pub open spec fn le_bits(a: u64, b: u64) -> bool {
    lt_bits(a, b) || eq_bits(a, b)
}

/// IEEE-754 `<` on bit patterns, as executable code.
pub fn f64_lt(a: u64, b: u64) -> (r: bool)
    ensures
        r == lt_bits(a, b),
{
    if a & EXP_MASK == EXP_MASK && a & FRAC_MASK != 0 {
        return false;
    }
    if b & EXP_MASK == EXP_MASK && b & FRAC_MASK != 0 {
        return false;
    }
    let mag_a = a & MAG_MASK;
    let mag_b = b & MAG_MASK;
    let neg_a = a & SIGN_MASK != 0;
    let neg_b = b & SIGN_MASK != 0;
    if mag_a == 0 && mag_b == 0 {
        false
    } else if neg_a != neg_b {
        neg_a
    } else if !neg_a {
        mag_a < mag_b
    } else {
        mag_a > mag_b
    }
}

/// IEEE-754 `<=` on bit patterns, as executable code.
pub fn f64_le(a: u64, b: u64) -> (r: bool)
    ensures
        r == le_bits(a, b),
{
    if a & EXP_MASK == EXP_MASK && a & FRAC_MASK != 0 {
        return false;
    }
    if b & EXP_MASK == EXP_MASK && b & FRAC_MASK != 0 {
        return false;
    }
    if a == b || (a & MAG_MASK == 0 && b & MAG_MASK == 0) {
        return true;
    }
    f64_lt(a, b)
}

/// The absolute value of a bit pattern: clearing the sign bit, which is
/// exactly what IEEE-754 `abs` does.
pub fn f64_abs(a: u64) -> (r: u64)
    ensures
        r == magnitude(a),
{
    a & MAG_MASK
}

/// The bit pattern of the IEEE-754 sum of two double-precision numbers,
/// rounded to nearest, ties to even.
pub uninterp spec fn add_bits(a: u64, b: u64) -> u64;

/// The bit pattern of the IEEE-754 difference of two double-precision
/// numbers, rounded to nearest, ties to even.
pub uninterp spec fn sub_bits(a: u64, b: u64) -> u64;

/// The bit pattern of the IEEE-754 product of two double-precision numbers,
/// rounded to nearest, ties to even.
pub uninterp spec fn mul_bits(a: u64, b: u64) -> u64;

/// The bit pattern of the IEEE-754 quotient of two double-precision numbers,
/// rounded to nearest, ties to even.
pub uninterp spec fn div_bits(a: u64, b: u64) -> u64;

/// The bit pattern of the remainder of two double-precision numbers, with
/// C `fmod` semantics (the remainder of truncating division, which is what
/// Rust's `%` computes on its primitive double type).
pub uninterp spec fn rem_bits(a: u64, b: u64) -> u64;

/// The bit pattern of the IEEE-754 square root of a double-precision number,
/// rounded to nearest, ties to even.
pub uninterp spec fn sqrt_bits(a: u64) -> u64;

/// Relies on rustc_apfloat's `Double::add_r`: IEEE-754 addition in software,
/// a pure function of the operand bit patterns.
#[verifier::external_body]
pub(crate) fn f64_add(a: u64, b: u64) -> (r: u64)
    ensures
        r == add_bits(a, b),
{
    let x = rustc_apfloat::ieee::Double::from_bits(a as u128);
    let y = rustc_apfloat::ieee::Double::from_bits(b as u128);
    x.add_r(y, rustc_apfloat::Round::NearestTiesToEven).value.to_bits() as u64
}

/// Relies on rustc_apfloat's `Double::sub_r`: IEEE-754 subtraction in
/// software, a pure function of the operand bit patterns.
#[verifier::external_body]
pub(crate) fn f64_sub(a: u64, b: u64) -> (r: u64)
    ensures
        r == sub_bits(a, b),
{
    let x = rustc_apfloat::ieee::Double::from_bits(a as u128);
    let y = rustc_apfloat::ieee::Double::from_bits(b as u128);
    x.sub_r(y, rustc_apfloat::Round::NearestTiesToEven).value.to_bits() as u64
}

/// Relies on rustc_apfloat's `Double::mul_r`: IEEE-754 multiplication in
/// software, a pure function of the operand bit patterns.
#[verifier::external_body]
pub(crate) fn f64_mul(a: u64, b: u64) -> (r: u64)
    ensures
        r == mul_bits(a, b),
{
    let x = rustc_apfloat::ieee::Double::from_bits(a as u128);
    let y = rustc_apfloat::ieee::Double::from_bits(b as u128);
    x.mul_r(y, rustc_apfloat::Round::NearestTiesToEven).value.to_bits() as u64
}

/// Relies on rustc_apfloat's `Double::div_r`: IEEE-754 division in software,
/// a pure function of the operand bit patterns.
#[verifier::external_body]
pub(crate) fn f64_div(a: u64, b: u64) -> (r: u64)
    ensures
        r == div_bits(a, b),
{
    let x = rustc_apfloat::ieee::Double::from_bits(a as u128);
    let y = rustc_apfloat::ieee::Double::from_bits(b as u128);
    x.div_r(y, rustc_apfloat::Round::NearestTiesToEven).value.to_bits() as u64
}

/// Relies on rustc_apfloat's `Double::c_fmod`: the C `fmod` remainder in
/// software, a pure function of the operand bit patterns.
#[verifier::external_body]
pub(crate) fn f64_rem(a: u64, b: u64) -> (r: u64)
    ensures
        r == rem_bits(a, b),
{
    let x = rustc_apfloat::ieee::Double::from_bits(a as u128);
    let y = rustc_apfloat::ieee::Double::from_bits(b as u128);
    x.c_fmod(y).value.to_bits() as u64
}

/// Relies on ieee_apsqrt's `sqrt_accurate` over double-precision bit
/// patterns: a correctly rounded IEEE-754 square root in software, a pure
/// function of the operand bit pattern.
#[verifier::external_body]
pub(crate) fn f64_sqrt(a: u64) -> (r: u64)
    ensures
        r == sqrt_bits(a),
{
    ieee_apsqrt::sqrt_accurate(a, rustc_apfloat::Round::NearestTiesToEven).0.value
}

} // verus!

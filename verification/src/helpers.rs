//! Decomposition of a double-precision bit pattern into integers.
//!
//! Coordinates are compared and hashed through this decomposition: a bit
//! pattern is split into its mantissa (with the implicit leading one made
//! explicit for normal numbers), its unbiased exponent and its sign. Two bit
//! patterns decompose equally exactly when they are the same pattern, which
//! is what makes the decomposition a sound equality and hash key.

use crate::fp::FRAC_MASK;
use vstd::prelude::*;

verus! {

/// The decomposition of a double-precision bit pattern into
/// (mantissa, exponent, sign).
///
/// For a normal number the mantissa is the 52-bit fraction field with the
/// implicit 53rd bit set; for a zero or subnormal number it is the fraction
/// field shifted left once. The exponent is the biased exponent field minus
/// 1075 (the bias of 1023 plus the 52 fraction bits), and the sign is `1`
/// for a clear sign bit and `-1` for a set one.
pub open spec fn spec_integer_decode(bits: u64) -> (u64, i16, i8) {
    let sign: i8 = if bits >> 63 == 0 {
        1
    } else {
        (-1) as i8
    };
    let raw_exp = (bits >> 52) & 0x7ff;
    let mantissa = if raw_exp == 0 {
        (bits & FRAC_MASK) << 1
    } else {
        (bits & FRAC_MASK) | 0x10_0000_0000_0000
    };
    (mantissa, ((raw_exp - 1075) as i16), sign)
}

/// Decompose a double-precision bit pattern into
/// (mantissa, exponent, sign).
pub fn integer_decode(bits: u64) -> (r: (u64, i16, i8))
    ensures
        r == spec_integer_decode(bits),
{
    let sign: i8 = if bits >> 63 == 0 {
        1
    } else {
        -1
    };
    let raw_exp: u64 = (bits >> 52) & 0x7ff;
    assert(raw_exp <= 0x7ff) by (bit_vector)
        requires
            raw_exp == (bits >> 52) & 0x7ff,
    ;
    let mantissa: u64 = if raw_exp == 0 {
        (bits & FRAC_MASK) << 1u64
    } else {
        (bits & FRAC_MASK) | 0x10_0000_0000_0000
    };
    let exponent: i16 = (raw_exp as i16) - 1075;
    (mantissa, exponent, sign)
}

/// The decomposition separates every pair of distinct bit patterns: two
/// patterns decompose to the same (mantissa, exponent, sign) triple exactly
/// when they are equal. Equality and hashing defined on the decomposition
/// therefore agree with bit-pattern equality; in particular the two zeros,
/// which differ only in sign, decompose differently.
pub proof fn lemma_integer_decode_injective(a: u64, b: u64)
    ensures
        spec_integer_decode(a) == spec_integer_decode(b) <==> a == b,
{
    if spec_integer_decode(a) == spec_integer_decode(b) {
        let ra = (a >> 52) & 0x7ff;
        let rb = (b >> 52) & 0x7ff;
        assert(ra <= 0x7ff && rb <= 0x7ff) by (bit_vector)
            requires
                ra == (a >> 52) & 0x7ff,
                rb == (b >> 52) & 0x7ff,
        ;
        assert((ra - 1075) as i16 == ra - 1075);
        assert((rb - 1075) as i16 == rb - 1075);
        assert(ra == rb);
        assert(a >> 63 <= 1 && b >> 63 <= 1) by (bit_vector);
        assert(a >> 63 == b >> 63);
        if ra == 0 {
            assert(a & FRAC_MASK == b & FRAC_MASK) by (bit_vector)
                requires
                    (a & 0x000F_FFFF_FFFF_FFFFu64) << 1u64 == (b & 0x000F_FFFF_FFFF_FFFFu64)
                        << 1u64,
            ;
        } else {
            assert(a & FRAC_MASK == b & FRAC_MASK) by (bit_vector)
                requires
                    (a & 0x000F_FFFF_FFFF_FFFFu64) | 0x10_0000_0000_0000u64 == (b
                        & 0x000F_FFFF_FFFF_FFFFu64) | 0x10_0000_0000_0000u64,
            ;
        }
        assert(a == b) by (bit_vector)
            requires
                a >> 63 == b >> 63,
                (a >> 52) & 0x7ff == (b >> 52) & 0x7ff,
                a & 0x000F_FFFF_FFFF_FFFFu64 == b & 0x000F_FFFF_FFFF_FFFFu64,
        ;
    }
}

} // verus!

//! Scalar dequantizers: the exact byte-to-binary32 conversions of the format.
//!
//! Each quantized field maps a byte (or a 24-bit byte group) to a dyadic
//! rational, which binary32 represents exactly; the functions here return the
//! bit pattern of that value.  Results are stated through the scaled-integer
//! model of `f32bits` (value times 2^149).
use vstd::prelude::*;

verus! {

use vstd::arithmetic::power2::{pow2, lemma_pow2_pos};
use vstd::arithmetic::mul::lemma_mul_strict_inequality;
use crate::f32bits::{f32_is_finite, f32_sign, f32_scaled_val, dyadic_to_f32_bits};

/// The signed integer stored as a little-endian 24-bit two's-complement
/// byte triple.
pub open spec fn spec_fixed24(b0: u8, b1: u8, b2: u8) -> int {
    let u = b0 + 0x100 * b1 + 0x10000 * b2;
    if u >= 0x80_0000 {
        u - 0x100_0000
    } else {
        u as int
    }
}

/// Sign-extend a little-endian 24-bit two's-complement byte triple.
pub fn fixed24_to_i32(b0: u8, b1: u8, b2: u8) -> (r: i32)
    ensures
        r == spec_fixed24(b0, b1, b2),
        -0x80_0000 <= r < 0x80_0000,
{
    let u: u32 = b0 as u32 + 0x100 * (b1 as u32) + 0x10000 * (b2 as u32);
    if u >= 0x80_0000 {
        -((0x100_0000u32 - u) as i32)
    } else {
        u as i32
    }
}

/// Value of a fixed-point position axis, scaled by 2^149: the stored 24-bit
/// integer times `2^-fractional_bits`.
pub open spec fn position_scaled_val(b0: u8, b1: u8, b2: u8, fractional_bits: int) -> int {
    spec_fixed24(b0, b1, b2) * (pow2((149 - fractional_bits) as nat) as int)
}

/// Binary32 bit pattern of one fixed-point position axis: the sign-extended
/// 24-bit integer scaled by `2^-fractional_bits`.  The conversion is exact;
/// `fractional_bits <= 126` keeps every nonzero result in the binary32 normal
/// range (a machine limit, not one of the format).
pub fn fixed24_to_f32_bits(b0: u8, b1: u8, b2: u8, fractional_bits: u32) -> (r: u32)
    requires
        fractional_bits <= 126,
    ensures
        f32_is_finite(r),
        f32_sign(r) == (spec_fixed24(b0, b1, b2) < 0),
        f32_scaled_val(r) == position_scaled_val(b0, b1, b2, fractional_bits as int),
{
    let v = fixed24_to_i32(b0, b1, b2);
    dyadic_to_f32_bits(v, fractional_bits)
}

/// Value of a dequantized log-scale byte, scaled by 2^149: `x/16 - 10`,
/// that is `(x - 160) * 2^-4`.
pub open spec fn scale_scaled_val(x: u8) -> int {
    (x - 160) * (pow2(145) as int)
}

/// Binary32 bit pattern of a dequantized anisotropic-scale byte:
/// `x/16 - 10`, exact in binary32.
pub fn unquantize_scale_bits(x: u8) -> (r: u32)
    ensures
        f32_is_finite(r),
        f32_sign(r) == (x < 160),
        f32_scaled_val(r) == scale_scaled_val(x),
{
    dyadic_to_f32_bits(x as i32 - 160, 4)
}

/// Value of a dequantized spherical-harmonic byte, scaled by 2^149:
/// `(x - 128) / 128`, that is `(x - 128) * 2^-7`.
pub open spec fn sh_scaled_val(x: u8) -> int {
    (x - 128) * (pow2(142) as int)
}

/// Binary32 bit pattern of a dequantized spherical-harmonic coefficient
/// byte: `(x - 128) / 128`, exact in binary32.  The neutral byte 128 decodes
/// to zero.
pub fn unquantize_sh_bits(x: u8) -> (r: u32)
    ensures
        f32_is_finite(r),
        f32_sign(r) == (x < 128),
        f32_scaled_val(r) == sh_scaled_val(x),
{
    dyadic_to_f32_bits(x as i32 - 128, 7)
}

/// The dequantized scale is a strictly increasing function of the input byte.
pub proof fn lemma_unquantize_scale_strictly_increasing(a: u8, b: u8)
    requires
        a < b,
    ensures
        scale_scaled_val(a) < scale_scaled_val(b),
{
    lemma_pow2_pos(145);
    lemma_mul_strict_inequality(a - 160, b - 160, pow2(145) as int);
}

/// The dequantized spherical-harmonic coefficient is a strictly increasing
/// function of the input byte.
pub proof fn lemma_unquantize_sh_strictly_increasing(a: u8, b: u8)
    requires
        a < b,
    ensures
        sh_scaled_val(a) < sh_scaled_val(b),
{
    lemma_pow2_pos(142);
    lemma_mul_strict_inequality(a - 128, b - 128, pow2(142) as int);
}

} // verus!

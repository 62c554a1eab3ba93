//! Bit-level model of IEEE-754 binary32 values and exact conversions into it.
//!
//! The crate never manipulates floating-point values directly: every decoded
//! scalar is produced as the `u32` bit pattern of the binary32 value it
//! denotes.  A finite binary32 magnitude is a multiple of `2^-149` (the least
//! subnormal), so `value * 2^149` is an integer; the contracts below speak of
//! that integer, which pins the denoted real number exactly.
use vstd::prelude::*;

verus! {

use vstd::arithmetic::power2::{
    pow2,
    lemma_pow2_adds,
    lemma_pow2_pos,
    lemma_pow2_strictly_increases,
    lemma2_to64,
};
use vstd::arithmetic::mul::{
    lemma_mul_is_associative,
    lemma_mul_is_distributive_add_other_way,
    lemma_mul_strict_inequality,
};
use vstd::bits::lemma_u32_shl_is_mul;

/// Sign bit of a binary32 bit pattern.
pub open spec fn f32_sign(bits: u32) -> bool {
    bits >> 31 == 1
}

/// Biased exponent field (8 bits) of a binary32 bit pattern.
pub open spec fn f32_exp_field(bits: u32) -> u32 {
    (bits >> 23) & 0xff
}

/// Fraction field (23 bits) of a binary32 bit pattern.
pub open spec fn f32_frac_field(bits: u32) -> u32 {
    bits & 0x7fffff
}

/// A binary32 bit pattern denotes a finite value (neither infinity nor NaN).
pub open spec fn f32_is_finite(bits: u32) -> bool {
    f32_exp_field(bits) != 0xff
}

/// Magnitude of the finite binary32 value denoted by `bits`, scaled by 2^149
/// so that it is an integer.
pub open spec fn f32_scaled_mag(bits: u32) -> int {
    if f32_exp_field(bits) == 0 {
        f32_frac_field(bits) as int
    } else {
        (0x800000 + f32_frac_field(bits) as int) * (pow2((f32_exp_field(bits) - 1) as nat) as int)
    }
}

/// Signed value of the finite binary32 denoted by `bits`, scaled by 2^149.
/// The two zero patterns both denote 0; they are told apart by `f32_sign`.
pub open spec fn f32_scaled_val(bits: u32) -> int {
    if f32_sign(bits) {
        -f32_scaled_mag(bits)
    } else {
        f32_scaled_mag(bits)
    }
}

proof fn lemma_f32_pack_fields(sign: u32, e: u32, f: u32, r: u32)
    by (bit_vector)
    requires
        sign <= 1,
        e < 255,
        f < 0x800000,
        r == sign * 0x8000_0000 + e * 0x80_0000 + f,
    ensures
        r >> 31 == sign,
        (r >> 23) & 0xff == e,
        r & 0x7fffff == f,
{
}

/// Assemble a finite binary32 bit pattern from its three fields.
fn f32_pack(sign: u32, e: u32, f: u32) -> (r: u32)
    requires
        sign <= 1,
        e < 255,
        f < 0x800000,
    ensures
        f32_sign(r) == (sign == 1),
        f32_exp_field(r) == e,
        f32_frac_field(r) == f,
        f32_is_finite(r),
{
    let r: u32 = sign * 0x8000_0000 + e * 0x80_0000 + f;
    proof {
        lemma_f32_pack_fields(sign, e, f, r);
    }
    r
}

/// Binary32 bit pattern of the positive value `mag * 2^-d`, which is exactly
/// representable: `mag` fits in the 24-bit significand and `d <= 126` keeps
/// the result in the normal range.
fn mag_to_f32_bits(sign: u32, mag: u32, d: u32) -> (r: u32)
    requires
        sign <= 1,
        1 <= mag <= 0x100_0000,
        d <= 126,
    ensures
        f32_is_finite(r),
        f32_sign(r) == (sign == 1),
        f32_scaled_mag(r) == mag * (pow2((149 - d) as nat) as int),
{
    proof {
        lemma2_to64();
    }
    let mut k: u32 = 0;
    while mag >= (2u32 << k)
        invariant
            1 <= mag <= 0x100_0000,
            k <= 24,
            pow2(k as nat) <= mag,
        decreases 25 - k,
    {
        proof {
            lemma_u32_shl_is_mul(2u32, k);
            lemma_pow2_adds(1, k as nat);
            lemma2_to64();
            if k + 1 > 24 {
                lemma_pow2_strictly_increases(24, (k + 1) as nat);
                assert(false);
            }
        }
        k = k + 1;
    }
    proof {
        lemma_u32_shl_is_mul(2u32, k);
        lemma_pow2_adds(1, k as nat);
        assert(mag < pow2((k + 1) as nat));
    }
    let e_field: u32 = k + 127 - d;
    let ghost ee: nat = (k + 126 - d) as nat;
    let f_field: u32;
    if k == 24 {
        proof {
            lemma2_to64();
            assert(mag == 0x100_0000);
        }
        f_field = 0;
        proof {
            // (2^23 + 0) * 2^(150 - d) == 2^24 * 2^(149 - d)
            lemma_pow2_adds(23, ee);
            lemma_pow2_adds(24, (149 - d) as nat);
        }
    } else {
        let pk = 1u32 << k;
        proof {
            lemma_u32_shl_is_mul(1u32, k);
            lemma_pow2_pos((23 - k) as nat);
            lemma_mul_strict_inequality(
                mag - pk,
                pow2(k as nat) as int,
                pow2((23 - k) as nat) as int,
            );
            lemma_pow2_adds(k as nat, (23 - k) as nat);
            lemma2_to64();
            assert((mag - pk) * (pow2((23 - k) as nat) as int) < 0x800000);
            lemma_u32_shl_is_mul((mag - pk) as u32, (23 - k) as u32);
        }
        f_field = (mag - pk) << (23 - k);
        proof {
            // 2^23 + (mag - 2^k) * 2^(23-k) == mag * 2^(23-k)
            lemma_mul_is_distributive_add_other_way(
                pow2((23 - k) as nat) as int,
                pow2(k as nat) as int,
                mag - pk,
            );
            assert(0x800000 + f_field == mag * (pow2((23 - k) as nat) as int));
            // mag * 2^(23-k) * 2^(k+126-d) == mag * 2^(149-d)
            lemma_mul_is_associative(mag as int, pow2((23 - k) as nat) as int, pow2(ee) as int);
            lemma_pow2_adds((23 - k) as nat, ee);
        }
    }
    let r = f32_pack(sign, e_field, f_field);
    proof {
        assert(f32_scaled_mag(r) == (0x800000 + f_field as int) * (pow2(ee) as int));
    }
    r
}

/// Binary32 bit pattern of the dyadic rational `n * 2^-d`.  The result is
/// exact: `|n|` fits in the 24-bit significand and `d <= 126` keeps any
/// nonzero result in the normal range (a machine limit of binary32, not of
/// the format).
pub fn dyadic_to_f32_bits(n: i32, d: u32) -> (r: u32)
    requires
        -0x100_0000 <= n <= 0x100_0000,
        d <= 126,
    ensures
        f32_is_finite(r),
        f32_sign(r) == (n < 0),
        f32_scaled_val(r) == n * (pow2((149 - d) as nat) as int),
{
    if n == 0 {
        proof {
            assert(0u32 >> 31 == 0 && (0u32 >> 23) & 0xff == 0 && 0u32 & 0x7fffff == 0)
                by (bit_vector);
        }
        0
    } else if n < 0 {
        let mag: u32 = (-n) as u32;
        let r = mag_to_f32_bits(1, mag, d);
        proof {
            assert(-(mag * (pow2((149 - d) as nat) as int)) == n * (pow2((149 - d) as nat) as int))
                by (nonlinear_arith)
                requires
                    n == -(mag as int),
            ;
        }
        r
    } else {
        mag_to_f32_bits(0, n as u32, d)
    }
}

/// Sign bit of a binary16 bit pattern.
pub open spec fn half_sign(h: u16) -> bool {
    h >> 15 == 1
}

/// Biased exponent field (5 bits) of a binary16 bit pattern.
pub open spec fn half_exp_field(h: u16) -> u16 {
    (h >> 10) & 0x1f
}

/// Fraction field (10 bits) of a binary16 bit pattern.
pub open spec fn half_frac_field(h: u16) -> u16 {
    h & 0x3ff
}

/// A binary16 bit pattern denotes a finite value (neither infinity nor NaN).
pub open spec fn half_is_finite(h: u16) -> bool {
    half_exp_field(h) != 0x1f
}

/// Magnitude of the finite binary16 value denoted by `h`, scaled by 2^149:
/// a subnormal denotes `frac * 2^-24`, a normal `(1024 + frac) * 2^(exp-25)`.
pub open spec fn half_scaled_mag(h: u16) -> int {
    if half_exp_field(h) == 0 {
        half_frac_field(h) * (pow2(125) as int)
    } else {
        (0x400 + half_frac_field(h) as int) * (pow2((half_exp_field(h) + 124) as nat) as int)
    }
}

proof fn lemma_half_fields(h: u16)
    by (bit_vector)
    ensures
        h >> 15 <= 1,
        (h >> 10) & 0x1f < 32,
        h & 0x3ff < 0x400,
{
}

/// The binary32 bit pattern `r` denotes the binary16 value `h`: the same
/// real number where `h` is finite, the same signed infinity, and the
/// canonical quiet NaN for every NaN (the sign is not kept).
pub open spec fn is_half_to_f32(h: u16, r: u32) -> bool {
    &&& (!half_is_finite(h) && half_frac_field(h) == 0 ==> r == (if half_sign(h) {
        0xff80_0000u32
    } else {
        0x7f80_0000u32
    }))
    &&& (!half_is_finite(h) && half_frac_field(h) != 0 ==> r == 0x7fc0_0000u32)
    &&& (half_is_finite(h) ==> f32_is_finite(r) && f32_sign(r) == half_sign(h)
        && f32_scaled_mag(r) == half_scaled_mag(h))
}

/// Widen a binary16 bit pattern to the binary32 bit pattern denoting the same
/// value: the conversion is exact for every finite input, a signed infinity
/// stays a signed infinity, and every NaN collapses to the canonical quiet
/// NaN pattern (the sign is not kept).
pub fn half_to_f32_bits(h: u16) -> (r: u32)
    ensures
        is_half_to_f32(h, r),
{
    proof {
        lemma_half_fields(h);
    }
    let sign: u32 = (h >> 15) as u32;
    let e: u16 = (h >> 10) & 0x1f;
    let m: u16 = h & 0x3ff;
    if e == 0x1f {
        if m == 0 {
            if sign == 1 {
                0xff80_0000
            } else {
                0x7f80_0000
            }
        } else {
            0x7fc0_0000
        }
    } else if e == 0 {
        if m == 0 {
            let r = f32_pack(sign, 0, 0);
            proof {
                assert(f32_scaled_mag(r) == 0);
                assert(half_scaled_mag(h) == 0);
            }
            r
        } else {
            let r = mag_to_f32_bits(sign, m as u32, 24);
            proof {
                assert(f32_scaled_mag(r) == m * (pow2(125) as int));
                assert(half_scaled_mag(h) == m * (pow2(125) as int));
            }
            r
        }
    } else {
        let f_field: u32 = (m as u32) * 0x2000;
        let r = f32_pack(sign, (e as u32) + 112, f_field);
        proof {
            lemma2_to64();
            assert(f32_scaled_mag(r) == (0x800000 + f_field as int) * (pow2(
                (e + 111) as nat,
            ) as int));
            // 2^23 + m * 2^13 == (1024 + m) * 2^13
            lemma_mul_is_distributive_add_other_way(0x2000int, 0x400int, m as int);
            assert(0x800000 + f_field as int == (0x400 + m as int) * 0x2000);
            lemma_mul_is_associative(0x400 + m as int, 0x2000int, pow2((e + 111) as nat) as int);
            lemma_pow2_adds(13, (e + 111) as nat);
            assert(0x2000 * (pow2((e + 111) as nat) as int) == pow2((e + 124) as nat) as int);
            assert(f32_scaled_mag(r) == (0x400 + m as int) * (pow2((e + 124) as nat) as int));
            assert(half_scaled_mag(h) == (0x400 + m as int) * (pow2((e + 124) as nat) as int));
        }
        r
    }
}

} // verus!

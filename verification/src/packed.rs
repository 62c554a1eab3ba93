//! The decoded packed buffers and the per-point extractor.
//!
//! A loaded file is six densely packed byte buffers, one per field; `at`
//! slices the raw byte groups of one splat out of them.  Loading from a
//! compressed stream goes through flate2's gzip inflation, the one outside
//! call of the crate.
use vstd::prelude::*;

verus! {

use vstd::arithmetic::mul::{
    lemma_mul_inequality,
    lemma_mul_is_associative,
    lemma_mul_is_distributive_add_other_way,
    lemma_mul_upper_bound,
};
use vstd::arithmetic::power2::pow2;
use vstd::assert_seqs_equal;
use crate::codec::{fixed24_to_f32_bits, spec_fixed24};
use crate::f32bits::{f32_is_finite, f32_scaled_val, f32_sign, half_to_f32_bits, is_half_to_f32};
use crate::format::{
    FLAG_ANTIALIASED,
    SpzError,
    dim_for_degree,
    header_parse_matches,
    le32_at,
    parse_header,
    spec_dim_for_degree,
    spec_header_ok,
    spec_payload_size,
    spec_position_stride,
};

/// The raw quantized byte groups of one splat, sliced out of the packed
/// buffers.  Under half-float position encoding only the first 6 position
/// bytes are meaningful and the tail is zero; SH entries past the stored
/// dimension hold the neutral byte 128.
pub struct PackedGaussian {
    pub position: [u8; 9],
    pub rotation: [u8; 3],
    pub scale: [u8; 3],
    pub color: [u8; 3],
    pub alpha: u8,
    pub sh_r: [u8; 15],
    pub sh_g: [u8; 15],
    pub sh_b: [u8; 15],
}

/// A decoded file: the header parameters and the six packed per-field byte
/// buffers, each `num_points` times its per-point stride long.
pub struct PackedGaussians {
    pub num_points: usize,
    pub sh_degree: usize,
    pub fractional_bits: usize,
    pub antialiased: bool,
    pub positions: Vec<u8>,
    pub scales: Vec<u8>,
    pub rotations: Vec<u8>,
    pub alphas: Vec<u8>,
    pub colors: Vec<u8>,
    pub sh: Vec<u8>,
}

impl PackedGaussians {
    /// Positions are stored as three half-floats (6 bytes per point) rather
    /// than three 24-bit fixed-point integers (9 bytes per point).
    pub open spec fn spec_uses_float16(self) -> bool {
        self.positions@.len() == self.num_points * 6
    }

    /// Bytes per point of the position buffer.
    pub open spec fn spec_position_bits(self) -> int {
        if self.spec_uses_float16() {
            6
        } else {
            9
        }
    }

    /// Stored SH coefficients per color channel.
    pub open spec fn sh_dim(self) -> int {
        spec_dim_for_degree(self.sh_degree as int)
    }

    /// Each buffer is exactly `num_points` times its per-point stride long.
    pub open spec fn wf(self) -> bool {
        &&& (self.positions@.len() == self.num_points * 6 || self.positions@.len()
            == self.num_points * 9)
        &&& self.alphas@.len() == self.num_points
        &&& self.colors@.len() == self.num_points * 3
        &&& self.scales@.len() == self.num_points * 3
        &&& self.rotations@.len() == self.num_points * 3
        &&& self.sh@.len() == self.num_points * self.sh_dim() * 3
    }

    pub fn uses_float16(&self) -> (r: bool)
        requires
            self.wf(),
        ensures
            r == self.spec_uses_float16(),
    {
        self.positions.len() == self.num_points * 3 * 2
    }

    /// Slice the raw byte groups of splat `i` out of the packed buffers.
    pub fn at(&self, i: usize) -> (r: PackedGaussian)
        requires
            self.wf(),
            i < self.num_points,
        ensures
            raw_point_matches(*self, i as int, r),
    {
        let np = self.num_points;
        let _pos_n = self.positions.len();
        let _sca_n = self.scales.len();
        let _sh_n = self.sh.len();
        let half_pos = self.uses_float16();
        let position: [u8; 9] = if half_pos {
            proof {
                lemma_mul_inequality(i as int + 1, np as int, 6);
                lemma_mul_is_distributive_add_other_way(6, i as int, 1);
            }
            let p = i * 6;
            [
                self.positions[p],
                self.positions[p + 1],
                self.positions[p + 2],
                self.positions[p + 3],
                self.positions[p + 4],
                self.positions[p + 5],
                0,
                0,
                0,
            ]
        } else {
            proof {
                lemma_mul_inequality(i as int + 1, np as int, 9);
                lemma_mul_is_distributive_add_other_way(9, i as int, 1);
            }
            let p = i * 9;
            [
                self.positions[p],
                self.positions[p + 1],
                self.positions[p + 2],
                self.positions[p + 3],
                self.positions[p + 4],
                self.positions[p + 5],
                self.positions[p + 6],
                self.positions[p + 7],
                self.positions[p + 8],
            ]
        };
        proof {
            lemma_mul_inequality(i as int + 1, np as int, 3);
            lemma_mul_is_distributive_add_other_way(3, i as int, 1);
        }
        let _rot_n = self.rotations.len();
        let _col_n = self.colors.len();
        let _alp_n = self.alphas.len();
        let s = i * 3;
        let scale: [u8; 3] = [self.scales[s], self.scales[s + 1], self.scales[s + 2]];
        let rotation: [u8; 3] = [self.rotations[s], self.rotations[s + 1], self.rotations[s + 2]];
        let color: [u8; 3] = [self.colors[s], self.colors[s + 1], self.colors[s + 2]];
        let alpha = self.alphas[i];
        let dim = dim_for_degree(self.sh_degree);
        proof {
            lemma_mul_inequality(i as int + 1, np as int, self.sh_dim() * 3);
            lemma_mul_is_distributive_add_other_way(self.sh_dim() * 3, i as int, 1);
            lemma_mul_is_associative(np as int, self.sh_dim(), 3);
        }
        let sh_base = i * (dim * 3);
        let sh_r: [u8; 15] = [
            sh_byte(&self.sh, sh_base, dim, 0, 0),
            sh_byte(&self.sh, sh_base, dim, 1, 0),
            sh_byte(&self.sh, sh_base, dim, 2, 0),
            sh_byte(&self.sh, sh_base, dim, 3, 0),
            sh_byte(&self.sh, sh_base, dim, 4, 0),
            sh_byte(&self.sh, sh_base, dim, 5, 0),
            sh_byte(&self.sh, sh_base, dim, 6, 0),
            sh_byte(&self.sh, sh_base, dim, 7, 0),
            sh_byte(&self.sh, sh_base, dim, 8, 0),
            sh_byte(&self.sh, sh_base, dim, 9, 0),
            sh_byte(&self.sh, sh_base, dim, 10, 0),
            sh_byte(&self.sh, sh_base, dim, 11, 0),
            sh_byte(&self.sh, sh_base, dim, 12, 0),
            sh_byte(&self.sh, sh_base, dim, 13, 0),
            sh_byte(&self.sh, sh_base, dim, 14, 0),
        ];
        let sh_g: [u8; 15] = [
            sh_byte(&self.sh, sh_base, dim, 0, 1),
            sh_byte(&self.sh, sh_base, dim, 1, 1),
            sh_byte(&self.sh, sh_base, dim, 2, 1),
            sh_byte(&self.sh, sh_base, dim, 3, 1),
            sh_byte(&self.sh, sh_base, dim, 4, 1),
            sh_byte(&self.sh, sh_base, dim, 5, 1),
            sh_byte(&self.sh, sh_base, dim, 6, 1),
            sh_byte(&self.sh, sh_base, dim, 7, 1),
            sh_byte(&self.sh, sh_base, dim, 8, 1),
            sh_byte(&self.sh, sh_base, dim, 9, 1),
            sh_byte(&self.sh, sh_base, dim, 10, 1),
            sh_byte(&self.sh, sh_base, dim, 11, 1),
            sh_byte(&self.sh, sh_base, dim, 12, 1),
            sh_byte(&self.sh, sh_base, dim, 13, 1),
            sh_byte(&self.sh, sh_base, dim, 14, 1),
        ];
        let sh_b: [u8; 15] = [
            sh_byte(&self.sh, sh_base, dim, 0, 2),
            sh_byte(&self.sh, sh_base, dim, 1, 2),
            sh_byte(&self.sh, sh_base, dim, 2, 2),
            sh_byte(&self.sh, sh_base, dim, 3, 2),
            sh_byte(&self.sh, sh_base, dim, 4, 2),
            sh_byte(&self.sh, sh_base, dim, 5, 2),
            sh_byte(&self.sh, sh_base, dim, 6, 2),
            sh_byte(&self.sh, sh_base, dim, 7, 2),
            sh_byte(&self.sh, sh_base, dim, 8, 2),
            sh_byte(&self.sh, sh_base, dim, 9, 2),
            sh_byte(&self.sh, sh_base, dim, 10, 2),
            sh_byte(&self.sh, sh_base, dim, 11, 2),
            sh_byte(&self.sh, sh_base, dim, 12, 2),
            sh_byte(&self.sh, sh_base, dim, 13, 2),
            sh_byte(&self.sh, sh_base, dim, 14, 2),
        ];
        proof {
            lemma_mul_is_associative(i as int, self.sh_dim(), 3);
        }
        PackedGaussian { position, rotation, scale, color, alpha, sh_r, sh_g, sh_b }
    }
}

/// The two position bytes of axis `a`, read as a little-endian binary16 bit
/// pattern.
pub open spec fn position_half_at(p: PackedGaussian, a: int) -> u16 {
    (p.position@[2 * a] + 0x100 * p.position@[2 * a + 1]) as u16
}

/// The three position bytes of axis `a`, read as a little-endian 24-bit
/// two's-complement integer.
pub open spec fn position_fixed_at(p: PackedGaussian, a: int) -> int {
    spec_fixed24(p.position@[3 * a], p.position@[3 * a + 1], p.position@[3 * a + 2])
}

fn half_at(p: &PackedGaussian, a: usize) -> (h: u16)
    requires
        a < 3,
    ensures
        h == position_half_at(*p, a as int),
{
    p.position[2 * a] as u16 + 0x100 * (p.position[2 * a + 1] as u16)
}

/// Decode the three position axes of one splat to binary32 bit patterns:
/// a little-endian half-float per axis under the half-float encoding, a
/// little-endian 24-bit fixed-point integer scaled by `2^-fractional_bits`
/// otherwise.  `fractional_bits <= 126` keeps the fixed-point result exact
/// (a binary32 machine limit, not one of the format).
pub fn unpack_position_bits(p: &PackedGaussian, uses_float16: bool, fractional_bits: u32) -> (r:
    [u32; 3])
    requires
        !uses_float16 ==> fractional_bits <= 126,
    ensures
        uses_float16 ==> forall|a: int|
            0 <= a < 3 ==> is_half_to_f32(position_half_at(*p, a), #[trigger] r@[a]),
        !uses_float16 ==> forall|a: int|
            0 <= a < 3 ==> f32_is_finite(#[trigger] r@[a]) && f32_sign(r@[a]) == (position_fixed_at(
                *p,
                a,
            ) < 0) && f32_scaled_val(r@[a]) == position_fixed_at(*p, a) * (pow2(
                (149 - fractional_bits) as nat,
            ) as int),
{
    if uses_float16 {
        [
            half_to_f32_bits(half_at(p, 0)),
            half_to_f32_bits(half_at(p, 1)),
            half_to_f32_bits(half_at(p, 2)),
        ]
    } else {
        [
            fixed24_to_f32_bits(p.position[0], p.position[1], p.position[2], fractional_bits),
            fixed24_to_f32_bits(p.position[3], p.position[4], p.position[5], fractional_bits),
            fixed24_to_f32_bits(p.position[6], p.position[7], p.position[8], fractional_bits),
        ]
    }
}

/// The SH byte of coefficient `j`, channel `chan`, of the point whose SH
/// bytes start at `base`; entries past the stored dimension are the neutral
/// byte 128.
pub open spec fn sh_byte_spec(g: PackedGaussians, i: int, j: int, chan: int) -> u8 {
    if j < g.sh_dim() {
        g.sh@[i * g.sh_dim() * 3 + 3 * j + chan]
    } else {
        128u8
    }
}

fn sh_byte(sh: &Vec<u8>, base: usize, dim: usize, j: usize, chan: usize) -> (r: u8)
    requires
        chan < 3,
        j < dim ==> base + 3 * dim <= sh@.len(),
    ensures
        r == (if j < dim {
            sh@[base + 3 * j + chan]
        } else {
            128u8
        }),
{
    if j < dim {
        let _n = sh.len();
        sh[base + 3 * j + chan]
    } else {
        128
    }
}

/// `r` holds exactly the raw byte groups of splat `i`: the position stride
/// at `i * stride` (zero-padded to 9 bytes under half-float encoding), the
/// 3-byte groups at `i * 3` for scale, rotation and color, the alpha byte at
/// `i`, and the de-interleaved SH bytes, neutral past the stored dimension.
pub open spec fn raw_point_matches(g: PackedGaussians, i: int, r: PackedGaussian) -> bool {
    let pb = g.spec_position_bits();
    &&& forall|j: int| 0 <= j < pb ==> r.position@[j] == g.positions@[i * pb + j]
    &&& forall|j: int| pb <= j < 9 ==> r.position@[j] == 0
    &&& forall|j: int| 0 <= j < 3 ==> r.scale@[j] == g.scales@[i * 3 + j]
    &&& forall|j: int| 0 <= j < 3 ==> r.rotation@[j] == g.rotations@[i * 3 + j]
    &&& forall|j: int| 0 <= j < 3 ==> r.color@[j] == g.colors@[i * 3 + j]
    &&& r.alpha == g.alphas@[i]
    &&& forall|j: int| 0 <= j < 15 ==> r.sh_r@[j] == sh_byte_spec(g, i, j, 0)
    &&& forall|j: int| 0 <= j < 15 ==> r.sh_g@[j] == sh_byte_spec(g, i, j, 1)
    &&& forall|j: int| 0 <= j < 15 ==> r.sh_b@[j] == sh_byte_spec(g, i, j, 2)
}

fn copy_section(data: &[u8], start: usize, len: usize) -> (v: Vec<u8>)
    requires
        start + len <= data@.len(),
    ensures
        v@ == data@.subrange(start as int, start as int + len as int),
{
    let _n = data.len();
    let mut v: Vec<u8> = Vec::new();
    let mut j: usize = 0;
    while j < len
        invariant
            _n == data@.len(),
            start + len <= _n,
            j <= len,
            v@ == data@.subrange(start as int, start as int + j as int),
        decreases len - j,
    {
        v.push(data[start + j]);
        proof {
            assert_seqs_equal!(
                v@ == data@.subrange(start as int, start as int + (j + 1) as int)
            );
        }
        j = j + 1;
    }
    v
}

/// What loading an already-decompressed byte buffer returns: the error names
/// what failed (a bad header, or a payload shorter than the six sections the
/// header calls for), and a success carries exactly the six sections, in
/// their fixed order, as the packed buffers.
pub open spec fn load_decompressed_matches(d: Seq<u8>, r: Result<PackedGaussians, SpzError>) -> bool {
    match r {
        Result::Err(e) => {
            if !spec_header_ok(d) {
                header_parse_matches(d, Result::Err(e))
            } else {
                e == SpzError::IoError && d.len() < 16 + spec_payload_size(
                    le32_at(d, 4),
                    le32_at(d, 8),
                    d[12] as int,
                )
            }
        },
        Result::Ok(g) => {
            let np = le32_at(d, 8);
            let pb = spec_position_stride(le32_at(d, 4));
            let dim = spec_dim_for_degree(d[12] as int);
            let o1 = 16 + np * pb;
            let o2 = o1 + np;
            let o3 = o2 + np * 3;
            let o4 = o3 + np * 3;
            let o5 = o4 + np * 3;
            let o6 = o5 + np * dim * 3;
            &&& spec_header_ok(d)
            &&& d.len() >= o6
            &&& g.num_points == np
            &&& g.sh_degree == d[12]
            &&& g.fractional_bits == d[13]
            &&& g.antialiased == ((d[14] & FLAG_ANTIALIASED) != 0)
            &&& g.positions@ == d.subrange(16, o1)
            &&& g.alphas@ == d.subrange(o1, o2)
            &&& g.colors@ == d.subrange(o2, o3)
            &&& g.scales@ == d.subrange(o3, o4)
            &&& g.rotations@ == d.subrange(o4, o5)
            &&& g.sh@ == d.subrange(o5, o6)
            &&& g.wf()
        },
    }
}

/// Decode a fully decompressed file image: parse the header, size the six
/// buffers from it, and take them from the payload in the fixed order
/// positions, alphas, colors, scales, rotations, SH.  A payload shorter than
/// the header calls for is a truncated-stream error; trailing bytes are
/// ignored.
pub fn load_packed_gaussians_from_decompressed_bytes(data: &[u8]) -> (r: Result<
    PackedGaussians,
    SpzError,
>)
    ensures
        load_decompressed_matches(data@, r),
{
    let h = match parse_header(data) {
        Result::Ok(h) => h,
        Result::Err(e) => { return Result::Err(e) },
    };
    let np64: u64 = h.num_points as u64;
    let pb64: u64 = if h.version == 1 {
        6
    } else {
        9
    };
    let dim = dim_for_degree(h.sh_degree as usize);
    proof {
        lemma_mul_upper_bound(np64 as int, 0xffff_ffff, pb64 as int, 9);
        lemma_mul_upper_bound(np64 as int, 0xffff_ffff, spec_dim_for_degree(h.sh_degree as int), 15);
        lemma_mul_upper_bound(
            np64 as int * spec_dim_for_degree(h.sh_degree as int),
            0xffff_ffffint * 15,
            3,
            3,
        );
        lemma_mul_upper_bound(np64 as int, 0xffff_ffff, 3, 3);
    }
    let pos_len: u64 = np64 * pb64;
    let three_len: u64 = np64 * 3;
    let sh_len: u64 = np64 * (dim as u64) * 3;
    let total: u64 = 16 + pos_len + np64 + three_len + three_len + three_len + sh_len;
    if (data.len() as u64) < total {
        return Result::Err(SpzError::IoError);
    }
    let o1: usize = 16 + (pos_len as usize);
    let o2: usize = o1 + (np64 as usize);
    let o3: usize = o2 + (three_len as usize);
    let o4: usize = o3 + (three_len as usize);
    let o5: usize = o4 + (three_len as usize);
    let g = PackedGaussians {
        num_points: h.num_points as usize,
        sh_degree: h.sh_degree as usize,
        fractional_bits: h.fractional_bits as usize,
        antialiased: (h.flags & FLAG_ANTIALIASED) != 0,
        positions: copy_section(data, 16, pos_len as usize),
        alphas: copy_section(data, o1, np64 as usize),
        colors: copy_section(data, o2, three_len as usize),
        scales: copy_section(data, o3, three_len as usize),
        rotations: copy_section(data, o4, three_len as usize),
        sh: copy_section(data, o5, sh_len as usize),
    };
    proof {
        lemma_mul_is_associative(np64 as int, spec_dim_for_degree(h.sh_degree as int), 3);
    }
    Result::Ok(g)
}

/// Names the result of flate2's gzip inflation of a byte buffer: `Some` of
/// the inflated bytes of the stream's first member, `None` where the stream
/// is malformed.
pub uninterp spec fn gunzip_of(data: Seq<u8>) -> Option<Seq<u8>>;

/// Relies on flate2::read::GzDecoder driven by std's read_to_end over an
/// in-memory byte slice: inflating one gzip member is a pure function of the
/// input bytes, and a malformed stream is an error.
#[verifier::external_body]
fn gunzip(data: &[u8]) -> (r: Option<Vec<u8>>)
    ensures
        (match r {
            Option::Some(v) => gunzip_of(data@) == Option::Some(v@),
            Option::None => gunzip_of(data@) is None,
        }),
{
    let mut decoder = flate2::read::GzDecoder::new(data);
    let mut out: Vec<u8> = Vec::new();
    match std::io::Read::read_to_end(&mut decoder, &mut out) {
        Ok(_) => Some(out),
        Err(_) => None,
    }
}

/// Decode a gzip-compressed file image: inflate it, then decode the
/// decompressed bytes.  A malformed gzip stream is an `IoError`.
pub fn load_packed_gaussians_from_spz_bytes(data: &[u8]) -> (r: Result<PackedGaussians, SpzError>)
    ensures
        (match gunzip_of(data@) {
            Option::Some(d) => load_decompressed_matches(d, r),
            Option::None => r == Result::<PackedGaussians, SpzError>::Err(SpzError::IoError),
        }),
{
    match gunzip(data) {
        Option::Some(v) => load_packed_gaussians_from_decompressed_bytes(v.as_slice()),
        Option::None => Result::Err(SpzError::IoError),
    }
}

} // verus!

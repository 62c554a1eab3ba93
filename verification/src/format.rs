//! The fixed file header and the derived buffer layout.
//!
//! All multi-byte header fields are little-endian; the decoder reads them
//! field by field (no in-memory reinterpretation), so the layout is the
//! documented 16-byte sequence: magic, version, num_points (u32 each), then
//! sh_degree, fractional_bits, flags and a reserved byte.
use vstd::prelude::*;

verus! {

/// The four magic bytes b"NGSP" read as a little-endian u32.
pub const SPZ_MAGIC: u32 = 0x5053_474e;

/// Header flag bit 0: the splats follow the antialiased convention.
pub const FLAG_ANTIALIASED: u8 = 0x1;

/// Why a load failed: a short or undecodable input, a wrong magic, or a
/// version other than 1 or 2.
#[derive(Clone, Copy, Debug, PartialEq, Eq, Structural)]
pub enum SpzError {
    IoError,
    BadMagic,
    UnsupportedVersion,
}

/// Number of spherical-harmonic coefficients stored per color channel for a
/// given SH degree; degrees outside 0..=3 carry no SH data.
pub open spec fn spec_dim_for_degree(degree: int) -> int {
    if degree == 0 {
        0
    } else if degree == 1 {
        3
    } else if degree == 2 {
        8
    } else if degree == 3 {
        15
    } else {
        0
    }
}

pub fn dim_for_degree(degree: usize) -> (r: usize)
    ensures
        r == spec_dim_for_degree(degree as int),
{
    match degree {
        0 => 0,
        1 => 3,
        2 => 8,
        3 => 15,
        _ => 0,
    }
}

/// The fixed 16-byte file header.
#[derive(Clone, Copy, Debug, PartialEq, Eq, Structural)]
pub struct PackedGaussiansHeader {
    pub magic: u32,
    pub version: u32,
    pub num_points: u32,
    pub sh_degree: u8,
    pub fractional_bits: u8,
    pub flags: u8,
    pub reserved: u8,
}

impl Default for PackedGaussiansHeader {
    fn default() -> (h: PackedGaussiansHeader)
        ensures
            h == (PackedGaussiansHeader {
                magic: SPZ_MAGIC,
                version: 2,
                num_points: 0,
                sh_degree: 0,
                fractional_bits: 0,
                flags: 0,
                reserved: 0,
            }),
    {
        PackedGaussiansHeader {
            magic: SPZ_MAGIC,
            version: 2,
            num_points: 0,
            sh_degree: 0,
            fractional_bits: 0,
            flags: 0,
            reserved: 0,
        }
    }
}

/// The little-endian u32 stored at byte offset `i`.
pub open spec fn le32_at(d: Seq<u8>, i: int) -> int {
    d[i] + 0x100 * d[i + 1] + 0x1_0000 * d[i + 2] + 0x100_0000 * d[i + 3]
}

fn le32(data: &[u8], i: usize) -> (r: u32)
    requires
        i + 4 <= data@.len(),
    ensures
        r == le32_at(data@, i as int),
{
    data[i] as u32 + 0x100 * (data[i + 1] as u32) + 0x1_0000 * (data[i + 2] as u32) + 0x100_0000
        * (data[i + 3] as u32)
}

/// The first 16 bytes hold a well-formed header: the magic matches and the
/// version is 1 or 2.
pub open spec fn spec_header_ok(d: Seq<u8>) -> bool {
    &&& d.len() >= 16
    &&& le32_at(d, 0) == SPZ_MAGIC
    &&& (le32_at(d, 4) == 1 || le32_at(d, 4) == 2)
}

/// What `parse_header` returns on input `d`: the error names the first check
/// that fails (length, then magic, then version), and a success carries
/// exactly the little-endian field values.
pub open spec fn header_parse_matches(d: Seq<u8>, r: Result<PackedGaussiansHeader, SpzError>) -> bool {
    match r {
        Result::Err(e) => {
            &&& ((e == SpzError::IoError) <==> d.len() < 16)
            &&& ((e == SpzError::BadMagic) <==> (d.len() >= 16 && le32_at(d, 0) != SPZ_MAGIC))
            &&& ((e == SpzError::UnsupportedVersion) <==> (d.len() >= 16 && le32_at(d, 0)
                == SPZ_MAGIC && le32_at(d, 4) != 1 && le32_at(d, 4) != 2))
        },
        Result::Ok(h) => {
            &&& spec_header_ok(d)
            &&& h.magic == le32_at(d, 0)
            &&& h.version == le32_at(d, 4)
            &&& h.num_points == le32_at(d, 8)
            &&& h.sh_degree == d[12]
            &&& h.fractional_bits == d[13]
            &&& h.flags == d[14]
            &&& h.reserved == d[15]
        },
    }
}

/// Decode the fixed 16-byte header from the start of `data`, little-endian.
/// Fails on a short input, a wrong magic, or a version other than 1 or 2.
pub fn parse_header(data: &[u8]) -> (r: Result<PackedGaussiansHeader, SpzError>)
    ensures
        header_parse_matches(data@, r),
{
    if data.len() < 16 {
        return Result::Err(SpzError::IoError);
    }
    let magic = le32(data, 0);
    if magic != SPZ_MAGIC {
        return Result::Err(SpzError::BadMagic);
    }
    let version = le32(data, 4);
    if version != 1 && version != 2 {
        return Result::Err(SpzError::UnsupportedVersion);
    }
    Result::Ok(PackedGaussiansHeader {
        magic,
        version,
        num_points: le32(data, 8),
        sh_degree: data[12],
        fractional_bits: data[13],
        flags: data[14],
        reserved: data[15],
    })
}

/// Bytes per point of the position buffer: two half-floats per axis under
/// version 1, a 24-bit fixed-point integer per axis under version 2.
pub open spec fn spec_position_stride(version: int) -> int {
    if version == 1 {
        6
    } else {
        9
    }
}

/// Total payload bytes after the header: the six buffers in their fixed
/// order (positions, alphas, colors, scales, rotations, SH).
pub open spec fn spec_payload_size(version: int, num_points: int, sh_degree: int) -> int {
    num_points * spec_position_stride(version) + num_points + num_points * 3 + num_points * 3
        + num_points * 3 + num_points * spec_dim_for_degree(sh_degree) * 3
}

} // verus!

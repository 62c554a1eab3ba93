use std::io::Write;

use flate2::write::GzEncoder;
use flate2::Compression;

use spz_rs::codec::{fixed24_to_f32_bits, unquantize_scale_bits};
use spz_rs::f32bits::half_to_f32_bits;
use spz_rs::format::{parse_header, PackedGaussiansHeader, SpzError, SPZ_MAGIC};
use spz_rs::packed::{
    load_packed_gaussians_from_decompressed_bytes, load_packed_gaussians_from_spz_bytes,
    unpack_position_bits,
};

fn header_bytes(version: u32, num_points: u32, sh_degree: u8, fractional_bits: u8, flags: u8) -> Vec<u8> {
    let mut v = Vec::new();
    v.extend_from_slice(&SPZ_MAGIC.to_le_bytes());
    v.extend_from_slice(&version.to_le_bytes());
    v.extend_from_slice(&num_points.to_le_bytes());
    v.push(sh_degree);
    v.push(fractional_bits);
    v.push(flags);
    v.push(0);
    v
}

fn gzip(data: &[u8]) -> Vec<u8> {
    let mut enc = GzEncoder::new(Vec::new(), Compression::default());
    enc.write_all(data).unwrap();
    enc.finish().unwrap()
}

#[test]
fn header_default_has_magic() {
    let h = PackedGaussiansHeader::default();
    assert_eq!(h.magic, SPZ_MAGIC);
    assert_eq!(h.version, 2);
    assert_eq!(h.num_points, 0);
}

#[test]
fn header_parse_fields() {
    let b = header_bytes(2, 7, 3, 12, 1);
    let h = parse_header(&b).unwrap();
    assert_eq!(h.magic, SPZ_MAGIC);
    assert_eq!(h.version, 2);
    assert_eq!(h.num_points, 7);
    assert_eq!(h.sh_degree, 3);
    assert_eq!(h.fractional_bits, 12);
    assert_eq!(h.flags, 1);
    assert_eq!(h.reserved, 0);
}

#[test]
fn header_too_short() {
    let b = header_bytes(2, 7, 3, 12, 1);
    assert_eq!(parse_header(&b[..15]), Err(SpzError::IoError));
}

#[test]
fn header_bad_magic() {
    let mut b = header_bytes(2, 7, 3, 12, 1);
    b[0] = b'X';
    assert_eq!(parse_header(&b), Err(SpzError::BadMagic));
}

#[test]
fn header_unsupported_version() {
    let b0 = header_bytes(0, 7, 3, 12, 1);
    assert_eq!(parse_header(&b0), Err(SpzError::UnsupportedVersion));
    let b3 = header_bytes(3, 7, 3, 12, 1);
    assert_eq!(parse_header(&b3), Err(SpzError::UnsupportedVersion));
}

/// The single-point version-2 scenario: position (4096, 0, 0) at 12
/// fractional bits, neutral alpha, color and rotation bytes, scale byte 160.
fn scenario_bytes() -> Vec<u8> {
    let mut d = header_bytes(2, 1, 0, 12, 0);
    d.extend_from_slice(&[0, 16, 0, 0, 0, 0, 0, 0, 0]); // positions
    d.push(128); // alpha
    d.extend_from_slice(&[128, 128, 128]); // colors
    d.extend_from_slice(&[160, 160, 160]); // scales
    d.extend_from_slice(&[127, 127, 127]); // rotations
    d
}

#[test]
fn end_to_end_single_point() {
    let d = scenario_bytes();
    let g = load_packed_gaussians_from_decompressed_bytes(&d).unwrap();
    assert_eq!(g.num_points, 1);
    assert_eq!(g.sh_degree, 0);
    assert_eq!(g.fractional_bits, 12);
    assert!(!g.antialiased);
    assert!(!g.uses_float16());
    assert_eq!(g.positions, vec![0, 16, 0, 0, 0, 0, 0, 0, 0]);
    assert_eq!(g.alphas, vec![128]);
    assert_eq!(g.sh, Vec::<u8>::new());

    let p = g.at(0);
    assert_eq!(p.position, [0, 16, 0, 0, 0, 0, 0, 0, 0]);
    assert_eq!(p.scale, [160, 160, 160]);
    assert_eq!(p.rotation, [127, 127, 127]);
    assert_eq!(p.color, [128, 128, 128]);
    assert_eq!(p.alpha, 128);
    assert_eq!(p.sh_r, [128u8; 15]);
    assert_eq!(p.sh_g, [128u8; 15]);
    assert_eq!(p.sh_b, [128u8; 15]);

    // position axis 0 decodes to 4096 * 2^-12 == 1.0, the others to 0.0
    let bits = unpack_position_bits(&p, g.uses_float16(), g.fractional_bits as u32);
    let x = f32::from_bits(bits[0]);
    let y = f32::from_bits(bits[1]);
    let z = f32::from_bits(bits[2]);
    assert_eq!((x, y, z), (1.0, 0.0, 0.0));
    assert_eq!(
        f32::from_bits(fixed24_to_f32_bits(p.position[0], p.position[1], p.position[2], 12)),
        1.0
    );
    // scale byte 160 decodes to 160/16 - 10 == 0.0
    assert_eq!(f32::from_bits(unquantize_scale_bits(p.scale[0])), 0.0);
}

#[test]
fn truncated_payload_is_an_error() {
    let d = scenario_bytes();
    let short = &d[..d.len() - 1];
    assert!(matches!(load_packed_gaussians_from_decompressed_bytes(short), Err(SpzError::IoError)));
    assert!(matches!(load_packed_gaussians_from_decompressed_bytes(&d[..16]), Err(SpzError::IoError)));
}

#[test]
fn trailing_bytes_are_ignored() {
    let mut d = scenario_bytes();
    d.push(99);
    let g = load_packed_gaussians_from_decompressed_bytes(&d).unwrap();
    assert_eq!(g.num_points, 1);
    assert_eq!(g.rotations, vec![127, 127, 127]);
}

#[test]
fn version1_half_float_layout() {
    let mut d = header_bytes(1, 2, 1, 0, 1);
    // two points, 6 position bytes each: (1.0, 0.0, -0.0) and (2.0, 1.0, 0.0)
    d.extend_from_slice(&[0x00, 0x3C, 0x00, 0x00, 0x00, 0x80]);
    d.extend_from_slice(&[0x00, 0x40, 0x00, 0x3C, 0x00, 0x00]);
    d.extend_from_slice(&[10, 11]); // alphas
    d.extend_from_slice(&[1, 2, 3, 4, 5, 6]); // colors
    d.extend_from_slice(&[21, 22, 23, 24, 25, 26]); // scales
    d.extend_from_slice(&[31, 32, 33, 34, 35, 36]); // rotations
    d.extend_from_slice(&[40, 41, 42, 43, 44, 45, 46, 47, 48]); // sh point 0, dim 3
    d.extend_from_slice(&[50, 51, 52, 53, 54, 55, 56, 57, 58]); // sh point 1
    let g = load_packed_gaussians_from_decompressed_bytes(&d).unwrap();
    assert_eq!(g.num_points, 2);
    assert!(g.antialiased);
    assert!(g.uses_float16());

    let p = g.at(1);
    assert_eq!(p.position, [0x00, 0x40, 0x00, 0x3C, 0x00, 0x00, 0, 0, 0]);
    let h0 = (p.position[0] as u16) | ((p.position[1] as u16) << 8);
    assert_eq!(f32::from_bits(half_to_f32_bits(h0)), 2.0);
    let bits = unpack_position_bits(&p, g.uses_float16(), 0);
    assert_eq!(f32::from_bits(bits[0]), 2.0);
    assert_eq!(f32::from_bits(bits[1]), 1.0);
    let ax2 = f32::from_bits(bits[2]);
    assert_eq!(ax2, 0.0);
    assert!(ax2.is_sign_positive());
    assert_eq!(p.alpha, 11);
    assert_eq!(p.color, [4, 5, 6]);
    assert_eq!(p.scale, [24, 25, 26]);
    assert_eq!(p.rotation, [34, 35, 36]);
    // SH bytes are interleaved R,G,B per coefficient; the tail is neutral
    assert_eq!(&p.sh_r[..3], &[50, 53, 56]);
    assert_eq!(&p.sh_g[..3], &[51, 54, 57]);
    assert_eq!(&p.sh_b[..3], &[52, 55, 58]);
    assert!(p.sh_r[3..].iter().all(|&b| b == 128));
}

#[test]
fn empty_file_loads() {
    let d = header_bytes(2, 0, 3, 12, 0);
    let g = load_packed_gaussians_from_decompressed_bytes(&d).unwrap();
    assert_eq!(g.num_points, 0);
    assert_eq!(g.sh_degree, 3);
    assert_eq!(g.positions, Vec::<u8>::new());
    assert_eq!(g.sh, Vec::<u8>::new());
}

#[test]
fn out_of_range_sh_degree_carries_no_sh_data() {
    // degrees outside 0..=3 degrade to dimension 0: the loader expects no SH
    // bytes and the extractor hands back neutral SH entries
    let mut d = header_bytes(2, 1, 9, 12, 0);
    d.extend_from_slice(&[0, 16, 0, 0, 0, 0, 0, 0, 0]);
    d.push(128);
    d.extend_from_slice(&[128, 128, 128]);
    d.extend_from_slice(&[160, 160, 160]);
    d.extend_from_slice(&[127, 127, 127]);
    let g = load_packed_gaussians_from_decompressed_bytes(&d).unwrap();
    assert_eq!(g.sh_degree, 9);
    assert_eq!(g.sh, Vec::<u8>::new());
    let p = g.at(0);
    assert_eq!(p.sh_r, [128u8; 15]);
}

#[test]
fn gzip_round_trip() {
    let d = scenario_bytes();
    let z = gzip(&d);
    let g = load_packed_gaussians_from_spz_bytes(&z).unwrap();
    assert_eq!(g.num_points, 1);
    assert_eq!(g.positions, vec![0, 16, 0, 0, 0, 0, 0, 0, 0]);
    assert_eq!(g.scales, vec![160, 160, 160]);
}

#[test]
fn malformed_gzip_is_an_error() {
    let garbage = vec![1u8, 2, 3, 4, 5];
    assert!(matches!(load_packed_gaussians_from_spz_bytes(&garbage), Err(SpzError::IoError)));
    let mut z = gzip(&scenario_bytes());
    let n = z.len();
    z.truncate(n - 4);
    assert!(load_packed_gaussians_from_spz_bytes(&z).is_err());
}

#[test]
fn bad_magic_through_loader() {
    let mut d = scenario_bytes();
    d[3] = 0;
    assert!(matches!(load_packed_gaussians_from_decompressed_bytes(&d), Err(SpzError::BadMagic)));
}

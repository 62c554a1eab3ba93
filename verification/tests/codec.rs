use spz_rs::codec::{fixed24_to_f32_bits, fixed24_to_i32, unquantize_scale_bits, unquantize_sh_bits};
use spz_rs::f32bits::half_to_f32_bits;
use spz_rs::format::dim_for_degree;

fn half(h: u16) -> f32 {
    f32::from_bits(half_to_f32_bits(h))
}

#[test]
fn half_zeroes() {
    let pz = half(0x0000);
    assert_eq!(pz, 0.0);
    assert!(pz.is_sign_positive());
    let nz = half(0x8000);
    assert_eq!(nz, 0.0);
    assert!(nz.is_sign_negative());
}

#[test]
fn half_one() {
    assert_eq!(half(0x3C00), 1.0);
}

#[test]
fn half_infinities() {
    assert_eq!(half(0x7C00), f32::INFINITY);
    assert_eq!(half(0xFC00), f32::NEG_INFINITY);
}

#[test]
fn half_nan() {
    assert!(half(0x7E00).is_nan());
    assert!(half(0xFFFF).is_nan());
}

#[test]
fn half_smallest_subnormal() {
    assert_eq!(half(0x0001), 2.0f32.powi(-24));
    assert_eq!(half(0x8001), -(2.0f32.powi(-24)));
}

#[test]
fn half_normals_and_subnormals() {
    // largest subnormal, smallest normal, and a value with a fraction
    assert_eq!(half(0x03FF), 1023.0 * 2.0f32.powi(-24));
    assert_eq!(half(0x0400), 2.0f32.powi(-14));
    assert_eq!(half(0x3555), 2.0f32.powi(-2) * (1.0 + 341.0 / 1024.0));
    assert_eq!(half(0xC000), -2.0);
    // largest finite half
    assert_eq!(half(0x7BFF), 65504.0);
}

#[test]
fn dim_for_degree_table() {
    assert_eq!(dim_for_degree(0), 0);
    assert_eq!(dim_for_degree(1), 3);
    assert_eq!(dim_for_degree(2), 8);
    assert_eq!(dim_for_degree(3), 15);
    assert_eq!(dim_for_degree(4), 0);
    assert_eq!(dim_for_degree(255), 0);
}

#[test]
fn scale_exact_values() {
    assert_eq!(f32::from_bits(unquantize_scale_bits(160)), 0.0);
    assert_eq!(f32::from_bits(unquantize_scale_bits(0)), -10.0);
    assert_eq!(f32::from_bits(unquantize_scale_bits(255)), 255.0 / 16.0 - 10.0);
    assert_eq!(f32::from_bits(unquantize_scale_bits(17)), 17.0 / 16.0 - 10.0);
}

#[test]
fn scale_strictly_increasing() {
    for x in 0..255u8 {
        let lo = f32::from_bits(unquantize_scale_bits(x));
        let hi = f32::from_bits(unquantize_scale_bits(x + 1));
        assert!(lo < hi);
    }
}

#[test]
fn sh_exact_values() {
    assert_eq!(f32::from_bits(unquantize_sh_bits(128)), 0.0);
    assert_eq!(f32::from_bits(unquantize_sh_bits(0)), -1.0);
    assert_eq!(f32::from_bits(unquantize_sh_bits(255)), 127.0 / 128.0);
    assert_eq!(f32::from_bits(unquantize_sh_bits(129)), 1.0 / 128.0);
}

#[test]
fn sh_strictly_increasing() {
    for x in 0..255u8 {
        let lo = f32::from_bits(unquantize_sh_bits(x));
        let hi = f32::from_bits(unquantize_sh_bits(x + 1));
        assert!(lo < hi);
    }
}

#[test]
fn fixed24_sign_extension() {
    assert_eq!(fixed24_to_i32(0, 0, 0), 0);
    assert_eq!(fixed24_to_i32(0, 16, 0), 4096);
    assert_eq!(fixed24_to_i32(255, 255, 255), -1);
    assert_eq!(fixed24_to_i32(0, 0, 128), -8388608);
    assert_eq!(fixed24_to_i32(255, 255, 127), 8388607);
}

#[test]
fn fixed24_scaling() {
    assert_eq!(f32::from_bits(fixed24_to_f32_bits(0, 16, 0, 12)), 1.0);
    assert_eq!(f32::from_bits(fixed24_to_f32_bits(255, 255, 255, 12)), -1.0 / 4096.0);
    assert_eq!(f32::from_bits(fixed24_to_f32_bits(3, 0, 0, 0)), 3.0);
    let z = f32::from_bits(fixed24_to_f32_bits(0, 0, 0, 12));
    assert_eq!(z, 0.0);
    assert!(z.is_sign_positive());
}

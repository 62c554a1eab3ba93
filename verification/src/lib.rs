//! Decoder for the compact gzip-compressed Gaussian-splat point-cloud format:
//! a fixed little-endian header, then six densely packed per-field byte
//! buffers, each splat carrying quantized position, rotation, scale, color,
//! opacity and spherical-harmonic coefficients.
//!
//! Every decoded scalar is produced as the `u32` bit pattern of the binary32
//! value it denotes (see `f32bits`), so the numeric contracts are exact.
pub mod codec;
pub mod f32bits;
pub mod format;
pub mod packed;

pub use crate::format::{PackedGaussiansHeader, SpzError};
pub use crate::packed::{
    load_packed_gaussians_from_decompressed_bytes, load_packed_gaussians_from_spz_bytes,
    PackedGaussian, PackedGaussians,
};

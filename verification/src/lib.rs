//! Decoder for S3TC-family block-compressed textures.
//!
//! A texture arrives as a raw little-endian byte buffer together with its
//! pixel dimensions.  The buffer is a back-to-back sequence of fixed-size
//! compressed blocks, each covering a 4x4 pixel tile: two packed 5-6-5
//! endpoint colours plus a 2-bit interpolation code per pixel, optionally
//! preceded by an 8-byte raw alpha payload.  Decoding parses the blocks,
//! reconstructs every tile by interpolating between the endpoint colours,
//! and lays the tiles out into a flat row-major pixel buffer.

use vstd::prelude::*;

pub mod dxt1;
pub mod dxt2;
pub mod error;
pub mod types;

use crate::dxt1::DXT1;
use crate::dxt2::DXT2;

verus! {

/// A decoded texture, one variant per supported block layout.
pub enum Image {
    DXT1(DXT1),
    DXT2(DXT2),
}

} // verus!

use dxt_codec::dxt2::{DXT2, DXT2Block, blend_rgba};
use dxt_codec::error::ImageError;
use dxt_codec::types::{R5G6B5Colour, RGBAColour};

fn block_bytes(alpha: [u8; 8], colour_1: u16, colour_2: u16, indices: u32) -> Vec<u8> {
    let mut v = Vec::new();
    v.extend_from_slice(&alpha);
    v.extend_from_slice(&colour_1.to_le_bytes());
    v.extend_from_slice(&colour_2.to_le_bytes());
    v.extend_from_slice(&indices.to_le_bytes());
    v
}

#[test]
fn block_parses_alpha_payload_and_colours() {
    let bytes = block_bytes([1, 2, 3, 4, 5, 6, 7, 8], 0x1234, 0x5678, 0x0403_0201);
    let block = DXT2Block::from_bytes(&bytes).unwrap();
    assert_eq!(block.alpha_data, [1, 2, 3, 4, 5, 6, 7, 8]);
    assert_eq!(block.colour_1.data, 0x1234);
    assert_eq!(block.colour_2.data, 0x5678);
    assert_eq!(block.indices, 0x0403_0201);
}

#[test]
fn alpha_block_rejects_short_input() {
    let bytes = [0u8; 15];
    let err = DXT2Block::from_bytes(&bytes).unwrap_err();
    assert_eq!(err, ImageError::InvalidData { required: 16, available: 15 });
}

#[test]
fn blend_rgba_interpolates_each_channel_independently() {
    let c1 = RGBAColour { r: 255, g: 99, b: 0, a: 255 };
    let c2 = RGBAColour { r: 0, g: 0, b: 255, a: 255 };
    assert_eq!(blend_rgba(0, c1, c2), c2);
    assert_eq!(blend_rgba(3, c1, c2), c1);
    // (1 * 255 + 2 * 0) / 3 == 85, (1 * 99 + 0) / 3 == 33,
    // (1 * 0 + 2 * 255) / 3 == 170.
    assert_eq!(blend_rgba(1, c1, c2), RGBAColour { r: 85, g: 33, b: 170, a: 255 });
}

#[test]
fn reconstructed_pixels_carry_maximum_alpha() {
    let bytes = block_bytes([0x11; 8], 0xFFFF, 0xF800, 0);
    let block = DXT2Block::from_bytes(&bytes).unwrap();
    let expected = RGBAColour::from(R5G6B5Colour::from(0xF800u16));
    for row in block.rows() {
        for pixel in row {
            assert_eq!(pixel, expected);
            assert_eq!(pixel.a, 255);
        }
    }
}

#[test]
fn alpha_block_rows_match_per_row_accessors() {
    let bytes = block_bytes([9; 8], 0xF800, 0x001F, 0x1234_5678);
    let block = DXT2Block::from_bytes(&bytes).unwrap();
    let rows = block.rows();
    assert_eq!(rows[0], block.row_1_rgba());
    assert_eq!(rows[1], block.row_2_rgba());
    assert_eq!(rows[2], block.row_3_rgba());
    assert_eq!(rows[3], block.row_4_rgba());
}

#[test]
fn alpha_decode_succeeds_on_exact_minimum_buffer() {
    // One byte per pixel: a 4x4 texture needs exactly one 16-byte block.
    let bytes = vec![0u8; 16];
    let image = DXT2::from_bytes(&bytes, 4, 4).unwrap();
    assert_eq!(image.width(), 4);
    assert_eq!(image.height(), 4);
}

#[test]
fn alpha_decode_fails_when_truncated_by_one_byte() {
    let bytes = vec![0u8; 15];
    let err = DXT2::from_bytes(&bytes, 4, 4).unwrap_err();
    assert_eq!(err, ImageError::InvalidData { required: 16, available: 15 });
}

#[test]
fn alpha_decode_rejects_zero_by_zero_dimensions() {
    let err = DXT2::from_bytes(&[], 0, 0).unwrap_err();
    assert_eq!(err, ImageError::InvalidInput);
}

#[test]
fn rgba_bytes_follow_the_tile_grid() {
    let mut bytes = block_bytes([0; 8], 0x0000, 0xF800, 0);
    bytes.extend_from_slice(&block_bytes([0; 8], 0x0000, 0x001F, 0));
    let image = DXT2::from_bytes(&bytes, 8, 4).unwrap();
    let flat = image.as_rgba_bytes();
    assert_eq!(flat.len(), 128);
    for row in 0..4 {
        for col in 0..4 {
            // Left tile: red; right tile: blue; alpha always at maximum.
            let left = 4 * (row * 8 + col);
            assert_eq!(&flat[left..left + 4], &[255, 0, 0, 255]);
            let right = 4 * (row * 8 + 4 + col);
            assert_eq!(&flat[right..right + 4], &[0, 0, 255, 255]);
        }
    }
}

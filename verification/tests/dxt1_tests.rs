use dxt_codec::Image;
use dxt_codec::dxt1::{DXT1, DXT1Block, blend};
use dxt_codec::error::ImageError;
use dxt_codec::types::{R5G6B5Colour, RGBColour};

fn block_bytes(colour_1: u16, colour_2: u16, indices: u32) -> Vec<u8> {
    let mut v = Vec::new();
    v.extend_from_slice(&colour_1.to_le_bytes());
    v.extend_from_slice(&colour_2.to_le_bytes());
    v.extend_from_slice(&indices.to_le_bytes());
    v
}

#[test]
fn block_parses_little_endian_fields() {
    let bytes = [0x34u8, 0x12, 0x78, 0x56, 0x01, 0x02, 0x03, 0x04];
    let block = DXT1Block::from_bytes(&bytes).unwrap();
    assert_eq!(block.colour_1.data, 0x1234);
    assert_eq!(block.colour_2.data, 0x5678);
    assert_eq!(block.indices, 0x0403_0201);
}

#[test]
fn block_rejects_short_input() {
    let bytes = [0u8; 7];
    let err = DXT1Block::from_bytes(&bytes).unwrap_err();
    assert_eq!(err, ImageError::InvalidData { required: 8, available: 7 });
}

#[test]
fn blend_code_0_reproduces_second_endpoint() {
    let c1 = RGBColour { r: 255, g: 200, b: 100 };
    let c2 = RGBColour { r: 10, g: 20, b: 30 };
    assert_eq!(blend(0, c1, c2), c2);
}

#[test]
fn blend_code_3_reproduces_first_endpoint() {
    let c1 = RGBColour { r: 255, g: 200, b: 100 };
    let c2 = RGBColour { r: 10, g: 20, b: 30 };
    assert_eq!(blend(3, c1, c2), c1);
}

#[test]
fn blend_intermediate_codes_round_toward_zero() {
    let white = RGBColour { r: 255, g: 255, b: 255 };
    let black = RGBColour { r: 0, g: 0, b: 0 };
    // (1 * 255 + 2 * 0) / 3 == 85 and (2 * 255 + 1 * 0) / 3 == 170.
    assert_eq!(blend(1, white, black), RGBColour { r: 85, g: 85, b: 85 });
    assert_eq!(blend(2, white, black), RGBColour { r: 170, g: 170, b: 170 });
    // (1 * 5 + 2 * 0) / 3 == 1 with the remainder dropped.
    let c1 = RGBColour { r: 5, g: 5, b: 5 };
    assert_eq!(blend(1, c1, black), RGBColour { r: 1, g: 1, b: 1 });
}

#[test]
fn all_zero_indices_decode_to_second_endpoint_everywhere() {
    // colour_1 = 0xFFFF, colour_2 = 0x0000, indices = 0: every code is 0,
    // so all 16 pixels equal the conversion of 0x0000.
    let bytes = block_bytes(0xFFFF, 0x0000, 0x0000_0000);
    let block = DXT1Block::from_bytes(&bytes).unwrap();
    let expected = RGBColour::from(R5G6B5Colour::from(0x0000u16));
    for row in block.rows() {
        for pixel in row {
            assert_eq!(pixel, expected);
        }
    }
}

#[test]
fn block_rows_match_per_row_accessors() {
    let bytes = block_bytes(0xF800, 0x001F, 0x1234_5678);
    let block = DXT1Block::from_bytes(&bytes).unwrap();
    let rows = block.rows();
    assert_eq!(rows[0], block.row_1());
    assert_eq!(rows[1], block.row_2());
    assert_eq!(rows[2], block.row_3());
    assert_eq!(rows[3], block.row_4());
}

#[test]
fn decode_succeeds_on_exact_minimum_buffer() {
    let bytes = vec![0u8; 8];
    let image = DXT1::from_bytes(&bytes, 4, 4).unwrap();
    assert_eq!(image.width(), 4);
    assert_eq!(image.height(), 4);

    let bytes = vec![0u8; 32];
    let image = DXT1::from_bytes(&bytes, 8, 8).unwrap();
    assert_eq!(image.width(), 8);
    assert_eq!(image.height(), 8);
}

#[test]
fn decode_fails_when_truncated_by_one_byte() {
    let bytes = vec![0u8; 7];
    let err = DXT1::from_bytes(&bytes, 4, 4).unwrap_err();
    assert_eq!(err, ImageError::InvalidData { required: 8, available: 7 });
}

#[test]
fn decode_rejects_zero_by_zero_dimensions() {
    let err = DXT1::from_bytes(&[], 0, 0).unwrap_err();
    assert_eq!(err, ImageError::InvalidInput);

    let bytes = vec![0xABu8; 64];
    let err = DXT1::from_bytes(&bytes, 0, 0).unwrap_err();
    assert_eq!(err, ImageError::InvalidInput);
}

#[test]
fn single_tile_image_matches_block_grid() {
    // A 4x4 image holds one block; its flat pixel sequence is that
    // block's 4x4 grid read row by row.
    let bytes = block_bytes(0xF800, 0x001F, 0xDEAD_BEEF);
    let image = DXT1::from_bytes(&bytes, 4, 4).unwrap();
    let block = DXT1Block::from_bytes(&bytes).unwrap();
    let pixels = image.as_rgb();
    assert_eq!(pixels.len(), 16);
    let rows = block.rows();
    for row in 0..4 {
        for col in 0..4 {
            assert_eq!(pixels[row * 4 + col], rows[row][col]);
        }
    }
}

#[test]
fn two_tile_row_interleaves_scanlines() {
    // An 8x4 image holds two blocks side by side; each output row is the
    // first tile's row followed by the second tile's row.
    let mut bytes = block_bytes(0x0000, 0xF800, 0);
    bytes.extend_from_slice(&block_bytes(0x0000, 0x001F, 0));
    let image = DXT1::from_bytes(&bytes, 8, 4).unwrap();
    let first = DXT1Block::from_bytes(&bytes[0..8]).unwrap();
    let second = DXT1Block::from_bytes(&bytes[8..16]).unwrap();
    let pixels = image.as_rgb();
    assert_eq!(pixels.len(), 32);

    let red = RGBColour::from(R5G6B5Colour::from(0xF800u16));
    let blue = RGBColour::from(R5G6B5Colour::from(0x001Fu16));
    let first_rows = first.rows();
    let second_rows = second.rows();
    for row in 0..4 {
        for col in 0..4 {
            assert_eq!(pixels[row * 8 + col], first_rows[row][col]);
            assert_eq!(pixels[row * 8 + col], red);
            assert_eq!(pixels[row * 8 + 4 + col], second_rows[row][col]);
            assert_eq!(pixels[row * 8 + 4 + col], blue);
        }
    }
}

#[test]
fn rgb_bytes_interleave_three_channels() {
    let bytes = block_bytes(0x0000, 0xF800, 0);
    let image = DXT1::from_bytes(&bytes, 4, 4).unwrap();
    let flat = image.as_rgb_bytes();
    assert_eq!(flat.len(), 48);
    for p in 0..16 {
        assert_eq!(flat[3 * p], 255);
        assert_eq!(flat[3 * p + 1], 0);
        assert_eq!(flat[3 * p + 2], 0);
    }
}

#[test]
fn rgba_bytes_force_maximum_alpha() {
    let bytes = block_bytes(0x0000, 0x001F, 0);
    let image = DXT1::from_bytes(&bytes, 4, 4).unwrap();
    let flat = image.as_rgba_bytes();
    assert_eq!(flat.len(), 64);
    for p in 0..16 {
        assert_eq!(flat[4 * p], 0);
        assert_eq!(flat[4 * p + 1], 0);
        assert_eq!(flat[4 * p + 2], 255);
        assert_eq!(flat[4 * p + 3], 255);
    }
}

#[test]
fn decode_accepts_a_single_zero_dimension() {
    // Only the all-zero pair is rejected; a zero area needs no bytes.
    let image = DXT1::from_bytes(&[], 4, 0).unwrap();
    assert_eq!(image.width(), 4);
    assert_eq!(image.height(), 0);
    assert_eq!(image.as_rgb().len(), 0);
}

#[test]
fn image_wraps_either_block_layout() {
    let bytes = vec![0u8; 8];
    let image = Image::DXT1(DXT1::from_bytes(&bytes, 4, 4).unwrap());
    match image {
        Image::DXT1(texture) => assert_eq!(texture.width(), 4),
        Image::DXT2(_) => panic!("expected the no-alpha variant"),
    }
}

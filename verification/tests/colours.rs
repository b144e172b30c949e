use dxt_codec::types::{R5G6B5Colour, RGBAColour, RGBColour, extract_code};

#[test]
fn packed_word_is_kept_verbatim() {
    let c = R5G6B5Colour::from(0xABCDu16);
    assert_eq!(c.data, 0xABCD);
}

#[test]
fn extreme_packed_colours_convert_exactly() {
    let black = RGBColour::from(R5G6B5Colour::from(0x0000u16));
    assert_eq!((black.r, black.g, black.b), (0, 0, 0));

    let white = RGBColour::from(R5G6B5Colour::from(0xFFFFu16));
    assert_eq!((white.r, white.g, white.b), (255, 255, 255));
}

#[test]
fn single_channel_packed_colours_convert_exactly() {
    let red = RGBColour::from(R5G6B5Colour::from(0xF800u16));
    assert_eq!((red.r, red.g, red.b), (255, 0, 0));

    let green = RGBColour::from(R5G6B5Colour::from(0x07E0u16));
    assert_eq!((green.r, green.g, green.b), (0, 255, 0));

    let blue = RGBColour::from(R5G6B5Colour::from(0x001Fu16));
    assert_eq!((blue.r, blue.g, blue.b), (0, 0, 255));
}

#[test]
fn five_bit_field_scales_with_floor_division() {
    // Red field 16 out of 31: 16 * 255 / 31 == 131 (floor).
    let c = RGBColour::from(R5G6B5Colour::from(0x8000u16));
    assert_eq!((c.r, c.g, c.b), (131, 0, 0));
}

#[test]
fn six_bit_field_scales_with_its_own_factor() {
    // Green field 32 out of 63: 32 * 255 / 63 == 129 (floor), not the
    // 5-bit scaling 32 * 255 / 31.
    let c = RGBColour::from(R5G6B5Colour::from(0x0400u16));
    assert_eq!((c.r, c.g, c.b), (0, 129, 0));
}

#[test]
fn rgba_conversion_forces_maximum_alpha() {
    let c = RGBAColour::from(RGBColour { r: 1, g: 2, b: 3 });
    assert_eq!((c.r, c.g, c.b, c.a), (1, 2, 3, 255));

    let d = RGBAColour::from(R5G6B5Colour::from(0xF800u16));
    assert_eq!((d.r, d.g, d.b, d.a), (255, 0, 0, 255));
}

#[test]
fn code_extraction_masks_the_shifted_group() {
    // The column shift moves bits out of the masked bottom pair, so every
    // index field yields code 0 at every pixel.
    for row in 0..4 {
        for col in 0..4 {
            assert_eq!(extract_code(0x0000_0000, row, col), 0);
            assert_eq!(extract_code(0xFFFF_FFFF, row, col), 0);
            assert_eq!(extract_code(0xDEAD_BEEF, row, col), 0);
        }
    }
}

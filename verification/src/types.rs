use vstd::prelude::*;

verus! {

/// A packed 16-bit colour word as it appears on disk: 5 bits of red
/// (bits 15..11), 6 bits of green (bits 10..5) and 5 bits of blue
/// (bits 4..0), read from the byte stream as a little-endian 16-bit word.
#[derive(Clone, Copy, Debug, PartialEq, Eq, Structural)]
pub struct R5G6B5Colour {
    pub data: u16,
}

/// An 8-bit-per-channel colour without alpha.
#[derive(Clone, Copy, Debug, PartialEq, Eq, Structural)]
pub struct RGBColour {
    pub r: u8,
    pub g: u8,
    pub b: u8,
}

/// An 8-bit-per-channel colour with alpha.
#[derive(Clone, Copy, Debug, PartialEq, Eq, Structural)]
pub struct RGBAColour {
    pub r: u8,
    pub g: u8,
    pub b: u8,
    pub a: u8,
}

/// The 5-bit red field of a packed colour word.
pub open spec fn red_field(data: u16) -> u16 {
    (data >> 11) & 0x1f
}

/// The 6-bit green field of a packed colour word.
pub open spec fn green_field(data: u16) -> u16 {
    (data >> 5) & 0x3f
}

/// The 5-bit blue field of a packed colour word.
pub open spec fn blue_field(data: u16) -> u16 {
    data & 0x1f
}

/// A 5-bit field (0..=31) scaled linearly onto 0..=255 with floor division.
pub open spec fn scale_5_bit(raw: u16) -> u8 {
    ((raw * 255) / 31) as u8
}

/// A 6-bit field (0..=63) scaled linearly onto 0..=255 with floor division.
pub open spec fn scale_6_bit(raw: u16) -> u8 {
    ((raw * 255) / 63) as u8
}

/// The 8-bit-per-channel colour denoted by a packed 5-6-5 colour word.
pub open spec fn rgb_of(data: u16) -> RGBColour {
    RGBColour {
        r: scale_5_bit(red_field(data)),
        g: scale_6_bit(green_field(data)),
        b: scale_5_bit(blue_field(data)),
    }
}

/// As `rgb_of`, with the alpha channel forced to its maximum.
pub open spec fn rgba_of(data: u16) -> RGBAColour {
    RGBAColour {
        r: scale_5_bit(red_field(data)),
        g: scale_6_bit(green_field(data)),
        b: scale_5_bit(blue_field(data)),
        a: 255,
    }
}

/// The number of tile columns needed to cover `width` pixels, rounding up.
pub open spec fn spec_tile_cols(width: u32) -> int {
    (width + 3) / 4
}

/// The number of tile rows needed to cover `height` pixels, rounding up.
pub open spec fn spec_tile_rows(height: u32) -> int {
    (height + 3) / 4
}

/// The 2-bit interpolation code for output row `row` and output column
/// `col` of a tile: the index field is shifted right by 8 bits per row,
/// then the row's 8-bit group is shifted left by two bits per column plus
/// two and masked down to its bottom two bits.
pub open spec fn code_at(indices: u32, row: int, col: int) -> u32
    recommends
        0 <= row < 4,
        0 <= col < 4,
{
    ((indices >> ((8 * row) as u32)) << ((2 * (col + 1)) as u32)) & 0b11u32
}

/// One channel interpolated between the endpoint channels `a` and `b`
/// according to the 2-bit code `i`: code 0 reproduces `b` exactly, code 3
/// reproduces `a` exactly, and codes 1 and 2 blend linearly, rounding
/// toward zero.
pub open spec fn blended(i: u32, a: u8, b: u8) -> u8
    recommends
        i <= 3,
{
    ((i * a + (3 - i) * b) / 3) as u8
}

pub(crate) proof fn lemma_blend_numerator_bound(i: u32, a: u8, b: u8)
    by (nonlinear_arith)
    requires
        i <= 3,
    ensures
        0 <= i * a + (3 - i) * b <= 765,
{
}

proof fn lemma_mask_two_bits(x: u32)
    by (bit_vector)
    ensures
        x & 0b11u32 <= 3,
{
}

pub(crate) proof fn lemma_grid_index_in_range(trow: int, tcol: int, tx: int, ty: int)
    by (nonlinear_arith)
    requires
        0 <= trow < ty,
        0 <= tcol < tx,
    ensures
        0 <= trow * tx + tcol < tx * ty,
{
}

pub(crate) proof fn lemma_mul_distribute_one(a: int, t: int)
    by (nonlinear_arith)
    ensures
        a * t + t == (a + 1) * t,
{
}

pub(crate) proof fn lemma_scanline_offset(trow: int, sub: int, tx: int)
    by (nonlinear_arith)
    ensures
        trow * (16 * tx) + sub * (4 * tx) == (4 * trow + sub) * (4 * tx),
{
}

pub(crate) proof fn lemma_div4_decompose(q: int, r: int)
    requires
        0 <= r < 4,
    ensures
        (4 * q + r) / 4 == q,
        (4 * q + r) % 4 == r,
{
    vstd::arithmetic::div_mod::lemma_fundamental_div_mod_converse(4 * q + r, 4, q, r);
}

pub(crate) proof fn lemma_grid_total(tx: int, ty: int)
    by (nonlinear_arith)
    ensures
        ty * (16 * tx) == 16 * (tx * ty),
        (4 * tx) * (4 * ty) == 16 * (tx * ty),
{
}

pub(crate) proof fn lemma_pixel_count_fits(width: u32, height: u32)
    by (nonlinear_arith)
    ensures
        0 <= width * height <= 0xffff_ffff * 0xffff_ffff,
{
}

/// The 2-bit code for output row `row` and output column `col` of a tile.
pub fn extract_code(indices: u32, row: u32, col: u32) -> (i: u32)
    requires
        row < 4,
        col < 4,
    ensures
        i == code_at(indices, row as int, col as int),
        i <= 3,
{
    let shifted: u32 = (indices >> (8 * row)) << (2 * (col + 1));
    proof {
        lemma_mask_two_bits(shifted);
    }
    shifted & 0b11
}

proof fn lemma_field_bounds(data: u16)
    by (bit_vector)
    ensures
        (data >> 11) & 0x1f < 32,
        (data >> 5) & 0x3f < 64,
        data & 0x1f < 32,
{
}

impl From<u16> for R5G6B5Colour {
    fn from(value: u16) -> (colour: Self) {
        R5G6B5Colour { data: value }
    }
}

impl vstd::std_specs::convert::FromSpecImpl<u16> for R5G6B5Colour {
    open spec fn obeys_from_spec() -> bool {
        true
    }

    open spec fn from_spec(value: u16) -> Self {
        R5G6B5Colour { data: value }
    }
}

impl From<R5G6B5Colour> for RGBColour {
    fn from(colour: R5G6B5Colour) -> (rgb: Self) {
        proof {
            lemma_field_bounds(colour.data);
        }
        let r_raw: u16 = (colour.data >> 11) & 0x1f;
        let g_raw: u16 = (colour.data >> 5) & 0x3f;
        let b_raw: u16 = colour.data & 0x1f;
        RGBColour {
            r: (r_raw * 255 / 31) as u8,
            g: (g_raw * 255 / 63) as u8,
            b: (b_raw * 255 / 31) as u8,
        }
    }
}

impl vstd::std_specs::convert::FromSpecImpl<R5G6B5Colour> for RGBColour {
    open spec fn obeys_from_spec() -> bool {
        true
    }

    open spec fn from_spec(colour: R5G6B5Colour) -> Self {
        rgb_of(colour.data)
    }
}

impl From<RGBColour> for RGBAColour {
    fn from(colour: RGBColour) -> (rgba: Self) {
        RGBAColour { r: colour.r, g: colour.g, b: colour.b, a: 255 }
    }
}

impl vstd::std_specs::convert::FromSpecImpl<RGBColour> for RGBAColour {
    open spec fn obeys_from_spec() -> bool {
        true
    }

    open spec fn from_spec(colour: RGBColour) -> Self {
        RGBAColour { r: colour.r, g: colour.g, b: colour.b, a: 255 }
    }
}

impl From<R5G6B5Colour> for RGBAColour {
    fn from(colour: R5G6B5Colour) -> (rgba: Self) {
        RGBAColour::from(RGBColour::from(colour))
    }
}

impl vstd::std_specs::convert::FromSpecImpl<R5G6B5Colour> for RGBAColour {
    open spec fn obeys_from_spec() -> bool {
        true
    }

    open spec fn from_spec(colour: R5G6B5Colour) -> Self {
        rgba_of(colour.data)
    }
}

} // verus!

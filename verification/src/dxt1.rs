use vstd::prelude::*;

use crate::error::ImageError;
use crate::types::{R5G6B5Colour, RGBColour, rgb_of, code_at, blended, extract_code,
    spec_tile_cols, spec_tile_rows, lemma_blend_numerator_bound, lemma_grid_index_in_range,
    lemma_mul_distribute_one, lemma_scanline_offset, lemma_div4_decompose, lemma_grid_total,
    lemma_pixel_count_fits};
use vstd::bytes::{spec_u16_from_le_bytes, spec_u32_from_le_bytes, u16_from_le_bytes,
    u32_from_le_bytes};
use vstd::slice::slice_subrange;

verus! {

/// A decoded texture of no-alpha blocks: the dimensions the caller
/// requested and the compressed tile grid in row-major tile order.
/// Immutable after construction.
#[derive(Debug)]
pub struct DXT1 {
    width: u32,
    height: u32,
    blocks: Vec<DXT1Block>,
}

impl DXT1 {
    /// The pixel width supplied when the texture was decoded.
    pub closed spec fn spec_width(&self) -> u32 {
        self.width
    }

    /// The pixel height supplied when the texture was decoded.
    pub closed spec fn spec_height(&self) -> u32 {
        self.height
    }

    /// The parsed blocks, in row-major tile order.
    pub closed spec fn spec_blocks(&self) -> Seq<DXT1Block> {
        self.blocks@
    }

    /// Decodes a texture: validates the dimensions and the buffer length,
    /// then parses consecutive 8-byte blocks until the computed block
    /// count is reached.  Fails with `InvalidInput` when both dimensions
    /// are zero, and with `InvalidData` when the buffer is shorter than
    /// the dimensions demand.
    #[verifier::loop_isolation(false)]
    pub fn from_bytes(bytes: &[u8], width: u32, height: u32) -> (r: Result<DXT1, ImageError>)
        ensures
            width == 0 && height == 0 ==> (r matches Err(e) && e == ImageError::InvalidInput),
            !(width == 0 && height == 0) && bytes@.len() < spec_min_bytes(width, height) ==> (r
                matches Err(e) && e == (ImageError::InvalidData {
                required: spec_min_bytes(width, height) as u64,
                available: bytes@.len() as u64,
            })),
            !(width == 0 && height == 0) && bytes@.len() >= spec_min_bytes(width, height) ==> (r
                matches Ok(img) && {
                &&& img.spec_width() == width
                &&& img.spec_height() == height
                &&& img.spec_blocks().len() == spec_block_count(width, height)
                &&& forall|k: int|
                    0 <= k < spec_block_count(width, height) ==> img.spec_blocks()[k]
                        == spec_parse_block(bytes@, 8 * k)
            }),
    {
        if width == 0 && height == 0 {
            return Err(ImageError::InvalidInput);
        }
        proof {
            lemma_pixel_count_fits(width, height);
        }
        let pixel_count: u64 = (width as u64) * (height as u64);
        let bytes_required: u64 = pixel_count / 2;
        if (bytes.len() as u64) < bytes_required {
            return Err(ImageError::InvalidData {
                required: bytes_required,
                available: bytes.len() as u64,
            });
        }
        let block_count: usize = (bytes_required / 8) as usize;
        let mut blocks: Vec<DXT1Block> = Vec::new();
        let mut i: usize = 0;
        while i < block_count
            invariant
                i <= block_count,
                blocks@.len() == i,
                forall|k: int| 0 <= k < i ==> blocks@[k] == spec_parse_block(bytes@, 8 * k),
            decreases block_count - i,
        {
            let off: usize = 8 * i;
            let chunk: &[u8] = slice_subrange(bytes, off, off + 8);
            let block = parse_block(chunk);
            proof {
                assert(chunk@.subrange(0, 2) =~= bytes@.subrange(off as int, off + 2));
                assert(chunk@.subrange(2, 4) =~= bytes@.subrange(off + 2, off + 4));
                assert(chunk@.subrange(4, 8) =~= bytes@.subrange(off + 4, off + 8));
            }
            blocks.push(block);
            i += 1;
        }
        Ok(DXT1 { width, height, blocks })
    }

    /// The colour of output pixel (y, x): the pixel at row `y % 4`,
    /// column `x % 4` of the tile in tile row `y / 4` and tile column
    /// `x / 4` of the row-major tile grid.
    pub open spec fn spec_pixel(&self, y: int, x: int) -> RGBColour
        recommends
            0 <= y < 4 * spec_tile_rows(self.spec_height()),
            0 <= x < 4 * spec_tile_cols(self.spec_width()),
            spec_tile_cols(self.spec_width()) * spec_tile_rows(self.spec_height())
                <= self.spec_blocks().len(),
    {
        block_pixel(
            self.spec_blocks()[(y / 4) * spec_tile_cols(self.spec_width()) + x / 4],
            y % 4,
            x % 4,
        )
    }

    /// Lays the reconstructed tiles out into one flat pixel sequence:
    /// row-major, top to bottom, left to right, spanning the full tile
    /// grid, with each scanline crossing every tile of its tile row
    /// before the next scanline starts.
    #[verifier::loop_isolation(false)]
    pub fn as_rgb(&self) -> (pixels: Vec<RGBColour>)
        requires
            spec_tile_cols(self.spec_width()) * spec_tile_rows(self.spec_height())
                <= self.spec_blocks().len(),
            16 * (spec_tile_cols(self.spec_width()) * spec_tile_rows(self.spec_height()))
                <= usize::MAX,
        ensures
            pixels@.len() == 16 * (spec_tile_cols(self.spec_width()) * spec_tile_rows(
                self.spec_height(),
            )),
            forall|y: int, x: int|
                0 <= y < 4 * spec_tile_rows(self.spec_height()) && 0 <= x < 4 * spec_tile_cols(
                    self.spec_width(),
                ) ==> pixels@[y * (4 * spec_tile_cols(self.spec_width())) + x] == self.spec_pixel(
                    y,
                    x,
                ),
    {
        let tx: usize = (self.width / 4 + if self.width % 4 == 0 { 0 } else { 1 }) as usize;
        let ty: usize = (self.height / 4 + if self.height % 4 == 0 { 0 } else { 1 }) as usize;
        assert(tx == spec_tile_cols(self.spec_width()));
        assert(ty == spec_tile_rows(self.spec_height()));
        let mut pixels: Vec<RGBColour> = Vec::new();
        let mut trow: usize = 0;
        while trow < ty
            invariant
                trow <= ty,
                pixels@.len() == trow * (16 * tx),
                forall|y: int, x: int|
                    0 <= y < 4 * trow && 0 <= x < 4 * tx ==> pixels@[y * (4 * tx) + x]
                        == self.spec_pixel(y, x),
            decreases ty - trow,
        {
            let mut sub: usize = 0;
            while sub < 4
                invariant
                    trow < ty,
                    sub <= 4,
                    pixels@.len() == trow * (16 * tx) + sub * (4 * tx),
                    forall|y: int, x: int|
                        0 <= y < 4 * trow + sub && 0 <= x < 4 * tx ==> pixels@[y * (4 * tx) + x]
                            == self.spec_pixel(y, x),
                decreases 4 - sub,
            {
                let mut tcol: usize = 0;
                while tcol < tx
                    invariant
                        trow < ty,
                        sub < 4,
                        tcol <= tx,
                        pixels@.len() == trow * (16 * tx) + sub * (4 * tx) + 4 * tcol,
                        forall|y: int, x: int|
                            0 <= y < 4 * trow + sub && 0 <= x < 4 * tx ==> pixels@[y * (4 * tx) + x]
                                == self.spec_pixel(y, x),
                        forall|x: int|
                            0 <= x < 4 * tcol ==> pixels@[(4 * trow + sub) * (4 * tx) + x]
                                == #[trigger] self.spec_pixel(4 * trow + sub, x),
                    decreases tx - tcol,
                {
                    proof {
                        lemma_grid_index_in_range(trow as int, tcol as int, tx as int, ty as int);
                        lemma_scanline_offset(trow as int, sub as int, tx as int);
                    }
                    let block = &self.blocks[trow * tx + tcol];
                    push_tile_row(&mut pixels, block, sub as u32);
                    proof {
                        let y0: int = 4 * trow + sub;
                        let w: int = 4 * tx as int;
                        assert forall|y: int, x: int|
                            0 <= y < y0 && 0 <= x < w implies pixels@[y * w + x]
                            == self.spec_pixel(y, x) by {
                            lemma_grid_index_in_range(y, x, w, y0);
                        }
                        assert forall|x: int|
                            0 <= x < 4 * (tcol + 1) implies pixels@[y0 * w + x]
                            == self.spec_pixel(y0, x) by {
                            lemma_div4_decompose(trow as int, sub as int);
                            if 4 * tcol <= x {
                                lemma_div4_decompose(tcol as int, x - 4 * tcol);
                            }
                        }
                    }
                    tcol += 1;
                }
                proof {
                    lemma_mul_distribute_one(sub as int, 4 * tx as int);
                    lemma_scanline_offset(trow as int, sub as int, tx as int);
                }
                sub += 1;
            }
            proof {
                lemma_mul_distribute_one(trow as int, 16 * tx as int);
            }
            trow += 1;
        }
        proof {
            lemma_grid_total(tx as int, ty as int);
        }
        pixels
    }

    /// The assembled image flattened to 3 bytes per pixel, row-major,
    /// channels in R, G, B order.
    #[verifier::loop_isolation(false)]
    #[verifier::spinoff_prover]
    pub fn as_rgb_bytes(&self) -> (bytes: Vec<u8>)
        requires
            spec_tile_cols(self.spec_width()) * spec_tile_rows(self.spec_height())
                <= self.spec_blocks().len(),
            48 * (spec_tile_cols(self.spec_width()) * spec_tile_rows(self.spec_height()))
                <= usize::MAX,
        ensures
            bytes@.len() == 48 * (spec_tile_cols(self.spec_width()) * spec_tile_rows(
                self.spec_height(),
            )),
            forall|y: int, x: int|
                0 <= y < 4 * spec_tile_rows(self.spec_height()) && 0 <= x < 4 * spec_tile_cols(
                    self.spec_width(),
                ) ==> {
                    &&& bytes@[3 * (y * (4 * spec_tile_cols(self.spec_width())) + x)]
                        == #[trigger] self.spec_pixel(y, x).r
                    &&& bytes@[3 * (y * (4 * spec_tile_cols(self.spec_width())) + x) + 1]
                        == self.spec_pixel(y, x).g
                    &&& bytes@[3 * (y * (4 * spec_tile_cols(self.spec_width())) + x) + 2]
                        == self.spec_pixel(y, x).b
                },
    {
        let pixels = self.as_rgb();
        let mut bytes: Vec<u8> = Vec::new();
        let mut i: usize = 0;
        while i < pixels.len()
            invariant
                i <= pixels@.len(),
                bytes@.len() == 3 * i,
                forall|k: int|
                    0 <= k < i ==> {
                        &&& bytes@[3 * k] == #[trigger] pixels@[k].r
                        &&& bytes@[3 * k + 1] == pixels@[k].g
                        &&& bytes@[3 * k + 2] == pixels@[k].b
                    },
            decreases pixels@.len() - i,
        {
            let c = pixels[i];
            push_rgb_bytes(&mut bytes, c);
            proof {
                assert(bytes@[3 * i as int] == pixels@[i as int].r);
                assert(bytes@[3 * i as int + 1] == pixels@[i as int].g);
                assert(bytes@[3 * i as int + 2] == pixels@[i as int].b);
            }
            i += 1;
        }
        proof {
            let tx: int = spec_tile_cols(self.spec_width());
            let ty: int = spec_tile_rows(self.spec_height());
            assert forall|y: int, x: int|
                0 <= y < 4 * ty && 0 <= x < 4 * tx implies {
                &&& bytes@[3 * (y * (4 * tx) + x)] == #[trigger] self.spec_pixel(y, x).r
                &&& bytes@[3 * (y * (4 * tx) + x) + 1] == self.spec_pixel(y, x).g
                &&& bytes@[3 * (y * (4 * tx) + x) + 2] == self.spec_pixel(y, x).b
            } by {
                lemma_grid_index_in_range(y, x, 4 * tx, 4 * ty);
                lemma_grid_total(tx, ty);
                let k: int = y * (4 * tx) + x;
                assert(0 <= k < pixels@.len());
                assert(pixels@[k] == self.spec_pixel(y, x));
                assert(bytes@[3 * k] == pixels@[k].r);
                assert(bytes@[3 * k + 1] == pixels@[k].g);
                assert(bytes@[3 * k + 2] == pixels@[k].b);
            }
        }
        bytes
    }

    /// The assembled image flattened to 4 bytes per pixel, row-major,
    /// channels in R, G, B, A order with the alpha byte forced to its
    /// maximum.
    #[verifier::loop_isolation(false)]
    #[verifier::spinoff_prover]
    pub fn as_rgba_bytes(&self) -> (bytes: Vec<u8>)
        requires
            spec_tile_cols(self.spec_width()) * spec_tile_rows(self.spec_height())
                <= self.spec_blocks().len(),
            64 * (spec_tile_cols(self.spec_width()) * spec_tile_rows(self.spec_height()))
                <= usize::MAX,
        ensures
            bytes@.len() == 64 * (spec_tile_cols(self.spec_width()) * spec_tile_rows(
                self.spec_height(),
            )),
            forall|y: int, x: int|
                0 <= y < 4 * spec_tile_rows(self.spec_height()) && 0 <= x < 4 * spec_tile_cols(
                    self.spec_width(),
                ) ==> {
                    &&& bytes@[4 * (y * (4 * spec_tile_cols(self.spec_width())) + x)]
                        == #[trigger] self.spec_pixel(y, x).r
                    &&& bytes@[4 * (y * (4 * spec_tile_cols(self.spec_width())) + x) + 1]
                        == self.spec_pixel(y, x).g
                    &&& bytes@[4 * (y * (4 * spec_tile_cols(self.spec_width())) + x) + 2]
                        == self.spec_pixel(y, x).b
                    &&& bytes@[4 * (y * (4 * spec_tile_cols(self.spec_width())) + x) + 3] == 255
                },
    {
        let pixels = self.as_rgb();
        let mut bytes: Vec<u8> = Vec::new();
        let mut i: usize = 0;
        while i < pixels.len()
            invariant
                i <= pixels@.len(),
                bytes@.len() == 4 * i,
                forall|k: int|
                    0 <= k < i ==> {
                        &&& bytes@[4 * k] == #[trigger] pixels@[k].r
                        &&& bytes@[4 * k + 1] == pixels@[k].g
                        &&& bytes@[4 * k + 2] == pixels@[k].b
                        &&& bytes@[4 * k + 3] == 255
                    },
            decreases pixels@.len() - i,
        {
            let c = pixels[i];
            push_rgba_bytes(&mut bytes, c);
            proof {
                assert(bytes@[4 * i as int] == pixels@[i as int].r);
                assert(bytes@[4 * i as int + 1] == pixels@[i as int].g);
                assert(bytes@[4 * i as int + 2] == pixels@[i as int].b);
                assert(bytes@[4 * i as int + 3] == 255);
            }
            i += 1;
        }
        proof {
            let tx: int = spec_tile_cols(self.spec_width());
            let ty: int = spec_tile_rows(self.spec_height());
            assert forall|y: int, x: int|
                0 <= y < 4 * ty && 0 <= x < 4 * tx implies {
                &&& bytes@[4 * (y * (4 * tx) + x)] == #[trigger] self.spec_pixel(y, x).r
                &&& bytes@[4 * (y * (4 * tx) + x) + 1] == self.spec_pixel(y, x).g
                &&& bytes@[4 * (y * (4 * tx) + x) + 2] == self.spec_pixel(y, x).b
                &&& bytes@[4 * (y * (4 * tx) + x) + 3] == 255
            } by {
                lemma_grid_index_in_range(y, x, 4 * tx, 4 * ty);
                lemma_grid_total(tx, ty);
                let k: int = y * (4 * tx) + x;
                assert(0 <= k < pixels@.len());
                assert(pixels@[k] == self.spec_pixel(y, x));
                assert(bytes@[4 * k] == pixels@[k].r);
                assert(bytes@[4 * k + 1] == pixels@[k].g);
                assert(bytes@[4 * k + 2] == pixels@[k].b);
                assert(bytes@[4 * k + 3] == 255);
            }
        }
        bytes
    }

    /// The pixel width this texture was decoded for.
    pub fn width(&self) -> (w: u32)
        ensures
            w == self.spec_width(),
    {
        self.width
    }

    /// The pixel height this texture was decoded for.
    pub fn height(&self) -> (h: u32)
        ensures
            h == self.spec_height(),
    {
        self.height
    }
}

/// One compressed 4x4 tile without alpha: two packed endpoint colours and a
/// 32-bit field holding one 2-bit interpolation code per pixel.  Fixed size
/// on disk: 8 bytes, little-endian, back to back with no padding.
#[derive(Clone, Copy, Debug, PartialEq, Eq, Structural)]
pub struct DXT1Block {
    pub colour_1: R5G6B5Colour,
    pub colour_2: R5G6B5Colour,
    pub indices: u32,
}

/// The number of bytes an 8-byte-per-16-pixel buffer must hold for the
/// requested dimensions: one byte per two pixels.
pub open spec fn spec_min_bytes(width: u32, height: u32) -> int {
    (width * height) / 2
}

/// How many blocks are parsed for the requested dimensions.
pub open spec fn spec_block_count(width: u32, height: u32) -> int {
    spec_min_bytes(width, height) / 8
}

/// The block encoded at byte offset `off` of `s`.
pub open spec fn spec_parse_block(s: Seq<u8>, off: int) -> DXT1Block
    recommends
        0 <= off,
        off + 8 <= s.len(),
{
    DXT1Block {
        colour_1: (R5G6B5Colour { data: spec_u16_from_le_bytes(s.subrange(off, off + 2)) }),
        colour_2: (R5G6B5Colour { data: spec_u16_from_le_bytes(s.subrange(off + 2, off + 4)) }),
        indices: spec_u32_from_le_bytes(s.subrange(off + 4, off + 8)),
    }
}

/// Both endpoint colours interpolated channel by channel.
pub open spec fn blend_of(i: u32, c1: RGBColour, c2: RGBColour) -> RGBColour {
    RGBColour {
        r: blended(i, c1.r, c2.r),
        g: blended(i, c1.g, c2.g),
        b: blended(i, c1.b, c2.b),
    }
}

/// The reconstructed colour of the pixel at output row `row` and output
/// column `col` of a tile.
pub open spec fn block_pixel(block: DXT1Block, row: int, col: int) -> RGBColour
    recommends
        0 <= row < 4,
        0 <= col < 4,
{
    blend_of(
        code_at(block.indices, row, col),
        rgb_of(block.colour_1.data),
        rgb_of(block.colour_2.data),
    )
}

/// Code 0 reconstructs the second endpoint colour exactly, and code 3 the
/// first, with no rounding error; codes in between are blends.
pub proof fn lemma_blend_extremes(c1: RGBColour, c2: RGBColour)
    ensures
        blend_of(0, c1, c2) == c2,
        blend_of(3, c1, c2) == c1,
{
}

/// At any pixel of any block, a code of 0 reconstructs `colour_2`
/// converted to 8-bit channels exactly, and a code of 3 reconstructs
/// `colour_1` exactly.
pub proof fn lemma_block_pixel_extremes(block: DXT1Block, row: int, col: int)
    requires
        0 <= row < 4,
        0 <= col < 4,
    ensures
        code_at(block.indices, row, col) == 0 ==> block_pixel(block, row, col) == rgb_of(
            block.colour_2.data,
        ),
        code_at(block.indices, row, col) == 3 ==> block_pixel(block, row, col) == rgb_of(
            block.colour_1.data,
        ),
{
    lemma_blend_extremes(rgb_of(block.colour_1.data), rgb_of(block.colour_2.data));
}

/// Both endpoint colours interpolated channel by channel according to the
/// 2-bit code `i`.
pub fn blend(i: u32, c1: RGBColour, c2: RGBColour) -> (c: RGBColour)
    requires
        i <= 3,
    ensures
        c == blend_of(i, c1, c2),
{
    proof {
        lemma_blend_numerator_bound(i, c1.r, c2.r);
        lemma_blend_numerator_bound(i, c1.g, c2.g);
        lemma_blend_numerator_bound(i, c1.b, c2.b);
    }
    RGBColour {
        r: ((i * c1.r as u32 + (3 - i) * c2.r as u32) / 3) as u8,
        g: ((i * c1.g as u32 + (3 - i) * c2.g as u32) / 3) as u8,
        b: ((i * c1.b as u32 + (3 - i) * c2.b as u32) / 3) as u8,
    }
}

/// Appends the four pixels of one tile's output row `sub` to `pixels`.
fn push_tile_row(pixels: &mut Vec<RGBColour>, block: &DXT1Block, sub: u32)
    requires
        sub < 4,
    ensures
        final(pixels)@.len() == old(pixels)@.len() + 4,
        forall|j: int| 0 <= j < old(pixels)@.len() ==> final(pixels)@[j] == old(pixels)@[j],
        forall|j: int|
            0 <= j < 4 ==> final(pixels)@[old(pixels)@.len() + j] == block_pixel(
                *block,
                sub as int,
                j,
            ),
{
    pixels.push(block.pixel(sub, 0));
    pixels.push(block.pixel(sub, 1));
    pixels.push(block.pixel(sub, 2));
    pixels.push(block.pixel(sub, 3));
}

/// Appends one pixel's three channel bytes to `bytes`.
fn push_rgb_bytes(bytes: &mut Vec<u8>, c: RGBColour)
    ensures
        final(bytes)@.len() == old(bytes)@.len() + 3,
        forall|j: int| 0 <= j < old(bytes)@.len() ==> final(bytes)@[j] == old(bytes)@[j],
        final(bytes)@[old(bytes)@.len() as int] == c.r,
        final(bytes)@[old(bytes)@.len() + 1int] == c.g,
        final(bytes)@[old(bytes)@.len() + 2int] == c.b,
{
    bytes.push(c.r);
    bytes.push(c.g);
    bytes.push(c.b);
}

/// Appends one pixel's three channel bytes to `bytes`, followed by the
/// maximum alpha byte.
fn push_rgba_bytes(bytes: &mut Vec<u8>, c: RGBColour)
    ensures
        final(bytes)@.len() == old(bytes)@.len() + 4,
        forall|j: int| 0 <= j < old(bytes)@.len() ==> final(bytes)@[j] == old(bytes)@[j],
        final(bytes)@[old(bytes)@.len() as int] == c.r,
        final(bytes)@[old(bytes)@.len() + 1int] == c.g,
        final(bytes)@[old(bytes)@.len() + 2int] == c.b,
        final(bytes)@[old(bytes)@.len() + 3int] == 255,
{
    bytes.push(c.r);
    bytes.push(c.g);
    bytes.push(c.b);
    bytes.push(255);
}

/// Reads the 8-byte block at the front of `bytes`.
fn parse_block(bytes: &[u8]) -> (block: DXT1Block)
    requires
        bytes@.len() == 8,
    ensures
        block == spec_parse_block(bytes@, 0),
{
    let colour_1: u16 = u16_from_le_bytes(slice_subrange(bytes, 0, 2));
    let colour_2: u16 = u16_from_le_bytes(slice_subrange(bytes, 2, 4));
    let indices: u32 = u32_from_le_bytes(slice_subrange(bytes, 4, 8));
    DXT1Block {
        colour_1: R5G6B5Colour { data: colour_1 },
        colour_2: R5G6B5Colour { data: colour_2 },
        indices,
    }
}

impl DXT1Block {
    /// Reads one block from the front of `bytes`: two little-endian 16-bit
    /// endpoint colour words followed by one little-endian 32-bit index
    /// field.  Fails when fewer than 8 bytes are supplied.
    pub fn from_bytes(bytes: &[u8]) -> (r: Result<DXT1Block, ImageError>)
        ensures
            bytes@.len() >= 8 ==> (r matches Ok(block) && block == spec_parse_block(bytes@, 0)),
            bytes@.len() < 8 ==> (r matches Err(e) && e == (ImageError::InvalidData {
                required: 8,
                available: bytes@.len() as u64,
            })),
    {
        if bytes.len() < 8 {
            return Err(ImageError::InvalidData { required: 8, available: bytes.len() as u64 });
        }
        let chunk: &[u8] = slice_subrange(bytes, 0, 8);
        let block = parse_block(chunk);
        proof {
            assert(chunk@.subrange(0, 2) =~= bytes@.subrange(0, 2));
            assert(chunk@.subrange(2, 4) =~= bytes@.subrange(2, 4));
            assert(chunk@.subrange(4, 8) =~= bytes@.subrange(4, 8));
        }
        Ok(block)
    }

    /// The reconstructed colour of one pixel of this tile, in output
    /// (top-to-bottom, left-to-right) coordinates.
    pub fn pixel(&self, row: u32, col: u32) -> (c: RGBColour)
        requires
            row < 4,
            col < 4,
        ensures
            c == block_pixel(*self, row as int, col as int),
    {
        let i = extract_code(self.indices, row, col);
        let c1 = RGBColour::from(self.colour_1);
        let c2 = RGBColour::from(self.colour_2);
        blend(i, c1, c2)
    }

    /// The topmost output row of the tile.
    pub fn row_1(&self) -> (r: [RGBColour; 4])
        ensures
            forall|c: int| 0 <= c < 4 ==> r[c] == block_pixel(*self, 0, c),
    {
        [self.pixel(0, 0), self.pixel(0, 1), self.pixel(0, 2), self.pixel(0, 3)]
    }

    /// The second output row of the tile.
    pub fn row_2(&self) -> (r: [RGBColour; 4])
        ensures
            forall|c: int| 0 <= c < 4 ==> r[c] == block_pixel(*self, 1, c),
    {
        [self.pixel(1, 0), self.pixel(1, 1), self.pixel(1, 2), self.pixel(1, 3)]
    }

    /// The third output row of the tile.
    pub fn row_3(&self) -> (r: [RGBColour; 4])
        ensures
            forall|c: int| 0 <= c < 4 ==> r[c] == block_pixel(*self, 2, c),
    {
        [self.pixel(2, 0), self.pixel(2, 1), self.pixel(2, 2), self.pixel(2, 3)]
    }

    /// The bottom output row of the tile.
    pub fn row_4(&self) -> (r: [RGBColour; 4])
        ensures
            forall|c: int| 0 <= c < 4 ==> r[c] == block_pixel(*self, 3, c),
    {
        [self.pixel(3, 0), self.pixel(3, 1), self.pixel(3, 2), self.pixel(3, 3)]
    }

    /// All four output rows, topmost first.
    pub fn rows(&self) -> (r: [[RGBColour; 4]; 4])
        ensures
            forall|row: int, col: int|
                0 <= row < 4 && 0 <= col < 4 ==> r[row][col] == block_pixel(*self, row, col),
    {
        [self.row_1(), self.row_2(), self.row_3(), self.row_4()]
    }
}

} // verus!

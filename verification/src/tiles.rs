//! Windows of a picture, and the tiling of a picture into squares of 64 by
//! 64 pixels that ZRLE asks for.

use crate::pixel::Rgb;
use vstd::prelude::*;

verus! {

/// Side of the square tiles into which ZRLE cuts the picture.
pub const ZRLE_TILE_SIZE: u32 = 64;

/// The pixels of a window `width` wide and `height` high, with its top left
/// corner at (`x`, `y`), in a picture `stride` pixels wide: row by row.
pub open spec fn region(
    pixels: Seq<Rgb>,
    stride: int,
    x: int,
    y: int,
    width: int,
    height: int,
) -> Seq<Rgb>
    decreases height,
{
    if height <= 0 {
        Seq::empty()
    } else {
        region(pixels, stride, x, y, width, height - 1) + pixels.subrange(
            (y + height - 1) * stride + x,
            (y + height - 1) * stride + x + width,
        )
    }
}

/// Tiles needed to cover `extent` pixels.
pub open spec fn tiles_along(extent: int) -> int {
    (extent + 63) / 64
}

/// Pixels that tile number `tile` covers of `extent`: 64, or what is left.
pub open spec fn tile_span(extent: int, tile: int) -> int {
    if extent - 64 * tile < 64 {
        extent - 64 * tile
    } else {
        64
    }
}

/// Pixels that the first `tiles` tiles cover of `extent`.
pub open spec fn covered(extent: int, tiles: int) -> int {
    if 64 * tiles < extent {
        64 * tiles
    } else {
        extent
    }
}

/// The bytes of all the slices of a list together.
pub open spec fn total_len(slices: Seq<Seq<u8>>) -> int
    decreases slices.len(),
{
    if slices.len() == 0 {
        0
    } else {
        total_len(slices.drop_last()) + slices.last().len()
    }
}

/// A window has a pixel for each of its places.
pub proof fn lemma_region_len(
    pixels: Seq<Rgb>,
    stride: int,
    x: int,
    y: int,
    width: int,
    height: int,
)
    requires
        0 <= x,
        0 <= y,
        0 <= width,
        0 <= height,
        x + width <= stride,
        (y + height) * stride <= pixels.len(),
    ensures
        region(pixels, stride, x, y, width, height).len() == width * height,
    decreases height,
{
    if height > 0 {
        let start = (y + height - 1) * stride;
        assert(start + stride == (y + height) * stride) by (nonlinear_arith)
            requires
                start == (y + height - 1) * stride,
        ;
        lemma_region_len(pixels, stride, x, y, width, height - 1);
        assert(width * (height - 1) + width == width * height) by (nonlinear_arith);
    } else {
        assert(width * height == 0) by (nonlinear_arith)
            requires
                height == 0,
        ;
    }
}

/// A window holds the pixels of its places, row by row.
pub proof fn lemma_region_index(
    pixels: Seq<Rgb>,
    stride: int,
    x: int,
    y: int,
    width: int,
    height: int,
    column: int,
    row: int,
)
    requires
        0 <= x,
        0 <= y,
        0 <= column < width,
        0 <= row < height,
        x + width <= stride,
        (y + height) * stride <= pixels.len(),
    ensures
        region(pixels, stride, x, y, width, height)[row * width + column] == pixels[(y + row)
            * stride + x + column],
    decreases height,
{
    let start = (y + height - 1) * stride;
    assert(start + stride == (y + height) * stride) by (nonlinear_arith)
        requires
            start == (y + height - 1) * stride,
    ;
    lemma_region_len(pixels, stride, x, y, width, height - 1);
    if row < height - 1 {
        lemma_region_index(pixels, stride, x, y, width, height - 1, column, row);
        assert(row * width + column < width * (height - 1)) by (nonlinear_arith)
            requires
                0 <= row < height - 1,
                0 <= column < width,
        ;
    } else {
        assert(row * width == width * (height - 1)) by (nonlinear_arith)
            requires
                row == height - 1,
        ;
    }
}

} // verus!

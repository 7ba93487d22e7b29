//! The transparency bitmask of a cursor sprite: one bit for each pixel, row
//! by row, each row in whole bytes, the leftmost pixel in the highest bit.

use vstd::arithmetic::power2::pow2;
use vstd::prelude::*;

verus! {

/// Bytes in one row of a bitmask `width` pixels wide.
pub open spec fn row_bytes(width: int) -> int {
    (width + 7) / 8
}

/// True when the pixel at `column` of `row` exists and is more than half opaque.
pub open spec fn drawn(alpha: Seq<u8>, width: int, row: int, column: int) -> bool {
    column < width && alpha[row * width + column] > 0x80
}

/// One or zero.
pub open spec fn bit(set: bool) -> int {
    if set {
        1
    } else {
        0
    }
}

/// Byte `index` of the bitmask row `row`: eight pixels from column
/// `8 * index` on, the first in the highest bit. Past the right edge the
/// bits are zero.
pub open spec fn mask_byte(alpha: Seq<u8>, width: int, row: int, index: int) -> u8 {
    (128 * bit(drawn(alpha, width, row, 8 * index)) + 64 * bit(
        drawn(alpha, width, row, 8 * index + 1),
    ) + 32 * bit(drawn(alpha, width, row, 8 * index + 2)) + 16 * bit(
        drawn(alpha, width, row, 8 * index + 3),
    ) + 8 * bit(drawn(alpha, width, row, 8 * index + 4)) + 4 * bit(
        drawn(alpha, width, row, 8 * index + 5),
    ) + 2 * bit(drawn(alpha, width, row, 8 * index + 6)) + bit(
        drawn(alpha, width, row, 8 * index + 7),
    )) as u8
}

/// The bitmask row `row`.
pub open spec fn mask_row(alpha: Seq<u8>, width: int, row: int) -> Seq<u8> {
    Seq::new(row_bytes(width) as nat, |index: int| mask_byte(alpha, width, row, index))
}

/// The bitmask of the first `height` rows, row by row.
pub open spec fn bitmask(alpha: Seq<u8>, width: int, height: int) -> Seq<u8>
    decreases height,
{
    if height <= 0 {
        Seq::empty()
    } else {
        bitmask(alpha, width, height - 1) + mask_row(alpha, width, height - 1)
    }
}

/// True when bit `position` of `byte` is set, the lowest bit being bit 0.
pub open spec fn bit_set(byte: u8, position: int) -> bool {
    (byte as int / pow2(position as nat) as int) % 2 == 1
}

/// The bitmask has `row_bytes(width)` bytes for each row.
pub proof fn lemma_bitmask_len(alpha: Seq<u8>, width: int, height: int)
    requires
        0 <= width,
        0 <= height,
    ensures
        bitmask(alpha, width, height).len() == row_bytes(width) * height,
    decreases height,
{
    if height > 0 {
        lemma_bitmask_len(alpha, width, height - 1);
        assert(row_bytes(width) * (height - 1) + row_bytes(width) == row_bytes(width) * height)
            by (nonlinear_arith);
    } else {
        assert(row_bytes(width) * height == 0) by (nonlinear_arith)
            requires
                height == 0,
        ;
    }
}

/// Byte `index` of row `row` stands at `row * row_bytes(width) + index`.
pub proof fn lemma_bitmask_byte(alpha: Seq<u8>, width: int, height: int, row: int, index: int)
    requires
        0 <= width,
        0 <= row < height,
        0 <= index < row_bytes(width),
    ensures
        bitmask(alpha, width, height)[row * row_bytes(width) + index] == mask_byte(
            alpha,
            width,
            row,
            index,
        ),
    decreases height,
{
    let per_row = row_bytes(width);
    lemma_bitmask_len(alpha, width, height - 1);
    if row < height - 1 {
        lemma_bitmask_byte(alpha, width, height - 1, row, index);
        assert(row * per_row + index < per_row * (height - 1)) by (nonlinear_arith)
            requires
                0 <= row < height - 1,
                0 <= index < per_row,
        ;
    } else {
        assert(row * per_row == per_row * (height - 1)) by (nonlinear_arith)
            requires
                row == height - 1,
        ;
    }
}

/// The layout of the bitmask. Each row has `row_bytes(width)` bytes. The
/// pixel in column `column` has bit `7 - column % 8` of byte `column / 8` of
/// its row, set if and only if its alpha is above 0x80. The bits of the last
/// byte of a row that stand past the right edge are zero.
pub proof fn lemma_bitmask_layout(alpha: Seq<u8>, width: int, height: int, row: int, column: int)
    requires
        0 <= width,
        0 <= row < height,
        0 <= column < 8 * row_bytes(width),
    ensures
        bitmask(alpha, width, height).len() == row_bytes(width) * height,
        bit_set(
            bitmask(alpha, width, height)[row * row_bytes(width) + column / 8],
            7 - column % 8,
        ) == (column < width && alpha[row * width + column] > 0x80),
{
    lemma_bitmask_len(alpha, width, height);
    lemma_bitmask_byte(alpha, width, height, row, column / 8);
    let index = column / 8;
    lemma_weights(
        bit(drawn(alpha, width, row, 8 * index)),
        bit(drawn(alpha, width, row, 8 * index + 1)),
        bit(drawn(alpha, width, row, 8 * index + 2)),
        bit(drawn(alpha, width, row, 8 * index + 3)),
        bit(drawn(alpha, width, row, 8 * index + 4)),
        bit(drawn(alpha, width, row, 8 * index + 5)),
        bit(drawn(alpha, width, row, 8 * index + 6)),
        bit(drawn(alpha, width, row, 8 * index + 7)),
    );
    vstd::arithmetic::power2::lemma2_to64();
}

/// Each of eight bits can be read back from the byte they make.
proof fn lemma_weights(b0: int, b1: int, b2: int, b3: int, b4: int, b5: int, b6: int, b7: int)
    requires
        0 <= b0 <= 1,
        0 <= b1 <= 1,
        0 <= b2 <= 1,
        0 <= b3 <= 1,
        0 <= b4 <= 1,
        0 <= b5 <= 1,
        0 <= b6 <= 1,
        0 <= b7 <= 1,
    ensures
        ({
            let byte = 128 * b0 + 64 * b1 + 32 * b2 + 16 * b3 + 8 * b4 + 4 * b5 + 2 * b6 + b7;
            &&& 0 <= byte <= 255
            &&& (byte / 128) % 2 == b0
            &&& (byte / 64) % 2 == b1
            &&& (byte / 32) % 2 == b2
            &&& (byte / 16) % 2 == b3
            &&& (byte / 8) % 2 == b4
            &&& (byte / 4) % 2 == b5
            &&& (byte / 2) % 2 == b6
            &&& (byte / 1) % 2 == b7
        }),
{
    let byte = 128 * b0 + 64 * b1 + 32 * b2 + 16 * b3 + 8 * b4 + 4 * b5 + 2 * b6 + b7;
    lemma_halves(b0, 64 * b1 + 32 * b2 + 16 * b3 + 8 * b4 + 4 * b5 + 2 * b6 + b7, 128);
    lemma_halves(2 * b0 + b1, 32 * b2 + 16 * b3 + 8 * b4 + 4 * b5 + 2 * b6 + b7, 64);
    lemma_halves(4 * b0 + 2 * b1 + b2, 16 * b3 + 8 * b4 + 4 * b5 + 2 * b6 + b7, 32);
    lemma_halves(8 * b0 + 4 * b1 + 2 * b2 + b3, 8 * b4 + 4 * b5 + 2 * b6 + b7, 16);
    lemma_halves(16 * b0 + 8 * b1 + 4 * b2 + 2 * b3 + b4, 4 * b5 + 2 * b6 + b7, 8);
    lemma_halves(32 * b0 + 16 * b1 + 8 * b2 + 4 * b3 + 2 * b4 + b5, 2 * b6 + b7, 4);
    lemma_halves(64 * b0 + 32 * b1 + 16 * b2 + 8 * b3 + 4 * b4 + 2 * b5 + b6, b7, 2);
    lemma_halves(byte, 0, 1);
    lemma_last(0, b0);
    lemma_last(b0, b1);
    lemma_last(2 * b0 + b1, b2);
    lemma_last(4 * b0 + 2 * b1 + b2, b3);
    lemma_last(8 * b0 + 4 * b1 + 2 * b2 + b3, b4);
    lemma_last(16 * b0 + 8 * b1 + 4 * b2 + 2 * b3 + b4, b5);
    lemma_last(32 * b0 + 16 * b1 + 8 * b2 + 4 * b3 + 2 * b4 + b5, b6);
    lemma_last(64 * b0 + 32 * b1 + 16 * b2 + 8 * b3 + 4 * b4 + 2 * b5 + b6, b7);
}

/// Dividing by a weight drops what stands below it.
proof fn lemma_halves(high: int, low: int, weight: int)
    requires
        0 < weight,
        0 <= low < weight,
    ensures
        (weight * high + low) / weight == high,
{
    assert(weight * high == high * weight) by (nonlinear_arith);
    vstd::arithmetic::div_mod::lemma_fundamental_div_mod_converse(
        weight * high + low,
        weight,
        high,
        low,
    );
}

/// The lowest bit is the remainder by two.
proof fn lemma_last(high: int, low: int)
    requires
        0 <= low <= 1,
    ensures
        (2 * high + low) % 2 == low,
{
}

/// The bit of the pixel at `column` of `row`: one if it is drawn.
fn mask_bit(alpha: &[u8], width: u16, row: u16, column: u32) -> (set: u8)
    requires
        alpha@.len() >= width * (row + 1),
    ensures
        set == bit(drawn(alpha@, width as int, row as int, column as int)),
{
    if column < width as u32 {
        assert(row * width + column < width * (row + 1)) by (nonlinear_arith)
            requires
                0 <= column < width,
                0 <= row,
        ;
        assert(row * width <= 0xffff * 0xffff) by (nonlinear_arith)
            requires
                0 <= row <= 0xffff,
                0 <= width <= 0xffff,
        ;
        let at: usize = (row as usize) * (width as usize) + (column as usize);
        if alpha[at] > 0x80 {
            1
        } else {
            0
        }
    } else {
        0
    }
}

/// Packs the bitmask of an alpha plane.
pub(crate) fn pack_bitmask(alpha: &[u8], width: u16, height: u16) -> (mask: Vec<u8>)
    requires
        alpha@.len() == width * height,
    ensures
        mask@ == bitmask(alpha@, width as int, height as int),
{
    let per_row: u32 = (width as u32 + 7) / 8;
    let mut mask: Vec<u8> = Vec::new();
    let mut row: u16 = 0;
    while row < height
        invariant
            row <= height,
            per_row == row_bytes(width as int),
            alpha@.len() == width * height,
            mask@ == bitmask(alpha@, width as int, row as int),
        decreases height - row,
    {
        assert(width * (row + 1) <= width * height) by (nonlinear_arith)
            requires
                row + 1 <= height,
                0 <= width,
        ;
        let ghost done = mask@;
        let mut index: u32 = 0;
        while index < per_row
            invariant
                index <= per_row,
                per_row == row_bytes(width as int),
                alpha@.len() >= width * (row + 1),
                mask@ == done + mask_row(alpha@, width as int, row as int).take(index as int),
            decreases per_row - index,
        {
            let first: u32 = 8 * index;
            let byte: u8 = 128 * mask_bit(alpha, width, row, first) + 64 * mask_bit(
                alpha,
                width,
                row,
                first + 1,
            ) + 32 * mask_bit(alpha, width, row, first + 2) + 16 * mask_bit(
                alpha,
                width,
                row,
                first + 3,
            ) + 8 * mask_bit(alpha, width, row, first + 4) + 4 * mask_bit(
                alpha,
                width,
                row,
                first + 5,
            ) + 2 * mask_bit(alpha, width, row, first + 6) + mask_bit(
                alpha,
                width,
                row,
                first + 7,
            );
            mask.push(byte);
            index += 1;
        }
        row += 1;
    }
    mask
}

} // verus!

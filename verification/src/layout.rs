//! Byte layout of a row-major pixel grid.
//!
//! A grid of `width` pixel columns with `bpp` bytes per pixel stores the
//! pixel at column `x`, row `y` at byte offset `(width*y + x)*bpp`. This
//! module defines that translation, the inverse decomposition of a byte
//! offset into its row, column and channel, and the lemmas relating them.

use vstd::prelude::*;
use vstd::arithmetic::div_mod::{
    lemma_div_pos_is_pos, lemma_fundamental_div_mod, lemma_fundamental_div_mod_converse,
    lemma_mod_bound, lemma_mod_mod, lemma_multiply_divide_lt,
};

verus! {

/// The byte offset of the first channel of pixel `(x, y)`.
pub open spec fn byte_index(width: int, bpp: int, x: int, y: int) -> int {
    (width * y + x) * bpp
}

/// The pixel row a byte offset falls in.
pub open spec fn byte_row(width: int, bpp: int, i: int) -> int {
    i / (width * bpp)
}

/// The pixel column a byte offset falls in.
pub open spec fn byte_col(width: int, bpp: int, i: int) -> int {
    (i % (width * bpp)) / bpp
}

/// The channel of a byte offset: its position within its pixel's bytes.
pub open spec fn byte_chan(width: int, bpp: int, i: int) -> int {
    i % bpp
}

/// The byte offset is linear: stride `width*bpp` in the row, stride `bpp`
/// in the column, and offset `0` at the origin.
pub proof fn lemma_byte_index_linear(width: int, bpp: int, x: int, y: int)
    ensures
        byte_index(width, bpp, x, y + 1) == byte_index(width, bpp, x, y) + width * bpp,
        byte_index(width, bpp, x + 1, y) == byte_index(width, bpp, x, y) + bpp,
        byte_index(width, bpp, 0, 0) == 0,
{
    assert((width * (y + 1) + x) * bpp == (width * y + x) * bpp + width * bpp)
        by (nonlinear_arith);
    assert((width * y + (x + 1)) * bpp == (width * y + x) * bpp + bpp) by (nonlinear_arith);
    assert((width * 0 + 0) * bpp == 0) by (nonlinear_arith);
}

/// Every channel byte of a pixel inside the grid lies inside the array.
pub proof fn lemma_byte_index_in_range(
    width: int,
    height: int,
    bpp: int,
    x: int,
    y: int,
    ch: int,
)
    requires
        0 <= x < width,
        0 <= y < height,
        0 <= ch < bpp,
    ensures
        0 <= byte_index(width, bpp, x, y) + ch,
        byte_index(width, bpp, x, y) + ch < width * height * bpp,
{
    assert(0 <= (width * y + x) * bpp + ch < width * height * bpp) by (nonlinear_arith)
        requires
            0 <= x < width,
            0 <= y < height,
            0 <= ch < bpp,
    ;
}

/// Decomposing the offset of channel `ch` of pixel `(x, y)` gives back
/// exactly that row, column and channel.
pub proof fn lemma_byte_index_decomposes(width: int, bpp: int, x: int, y: int, ch: int)
    requires
        0 <= x < width,
        0 <= y,
        0 <= ch < bpp,
    ensures
        byte_row(width, bpp, byte_index(width, bpp, x, y) + ch) == y,
        byte_col(width, bpp, byte_index(width, bpp, x, y) + ch) == x,
        byte_chan(width, bpp, byte_index(width, bpp, x, y) + ch) == ch,
{
    let i = byte_index(width, bpp, x, y) + ch;
    let s = x * bpp + ch;
    assert((width * y + x) * bpp + ch == y * (width * bpp) + (x * bpp + ch))
        by (nonlinear_arith);
    assert(0 <= x * bpp + ch < width * bpp) by (nonlinear_arith)
        requires
            0 <= x < width,
            0 <= ch < bpp,
    ;
    lemma_fundamental_div_mod_converse(i, width * bpp, y, s);
    lemma_fundamental_div_mod_converse(s, bpp, x, ch);
    assert((width * y + x) * bpp + ch == (width * y + x) * bpp + ch);
    assert(i == (width * y + x) * bpp + ch);
    lemma_fundamental_div_mod_converse(i, bpp, width * y + x, ch);
}

/// Every nonnegative byte offset is the offset of the pixel and channel
/// it decomposes into, with the column and channel within their ranges.
pub proof fn lemma_byte_offset_decomposes(width: int, bpp: int, i: int)
    requires
        1 <= width,
        1 <= bpp,
        0 <= i,
    ensures
        0 <= byte_row(width, bpp, i),
        0 <= byte_col(width, bpp, i) < width,
        0 <= byte_chan(width, bpp, i) < bpp,
        i == byte_index(width, bpp, byte_col(width, bpp, i), byte_row(width, bpp, i))
            + byte_chan(width, bpp, i),
{
    let stride = width * bpp;
    assert(1 <= width * bpp) by (nonlinear_arith)
        requires
            1 <= width,
            1 <= bpp,
    ;
    let row = i / stride;
    let s = i % stride;
    lemma_fundamental_div_mod(i, stride);
    lemma_mod_bound(i, stride);
    let col = s / bpp;
    lemma_fundamental_div_mod(s, bpp);
    lemma_mod_bound(s, bpp);
    assert(col < width) by {
        assert(s < bpp * width) by (nonlinear_arith)
            requires
                s < width * bpp,
        ;
        lemma_multiply_divide_lt(s, bpp, width);
    }
    lemma_div_pos_is_pos(s, bpp);
    lemma_div_pos_is_pos(i, stride);
    assert(byte_chan(width, bpp, i) == s % bpp) by {
        assert(i % bpp == (i % (bpp * width)) % bpp) by {
            lemma_mod_mod(i, bpp, width);
        }
        assert(bpp * width == width * bpp) by (nonlinear_arith);
    }
    assert(i == byte_index(width, bpp, col, row) + s % bpp) by (nonlinear_arith)
        requires
            i == stride * row + s,
            stride == width * bpp,
            s == bpp * col + s % bpp,
    ;
}

/// A byte offset inside the array lies in a row inside the grid.
pub proof fn lemma_byte_row_in_range(width: int, height: int, bpp: int, i: int)
    requires
        1 <= width,
        1 <= bpp,
        0 <= height,
        0 <= i < width * height * bpp,
    ensures
        0 <= byte_row(width, bpp, i) < height,
{
    let stride = width * bpp;
    assert(1 <= width * bpp) by (nonlinear_arith)
        requires
            1 <= width,
            1 <= bpp,
    ;
    assert(i < stride * height) by (nonlinear_arith)
        requires
            i < width * height * bpp,
            stride == width * bpp,
    ;
    lemma_multiply_divide_lt(i, stride, height);
    assert(0 <= i / stride) by (nonlinear_arith)
        requires
            0 <= i,
            1 <= stride,
    ;
}

} // verus!

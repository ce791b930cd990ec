use vstd::prelude::*;
use vstd::arithmetic::div_mod::{
    lemma_fundamental_div_mod,
    lemma_fundamental_div_mod_converse,
    lemma_mod_bound,
    lemma_div_pos_is_pos,
    lemma_multiply_divide_lt,
};
use crate::settings::RenderSettings;

verus! {

// The frame buffer holds one entry per pixel in output order: the top scanline
// first, each scanline from left to right. Scanlines are numbered from the bottom
// of the image, as the camera's vertical screen coordinate grows upwards.

/// Column of the pixel stored at `index`.
pub open spec fn column_of(width: int, index: int) -> int {
    index % width
}

/// Scanline, counted from the bottom, of the pixel stored at `index`.
pub open spec fn scanline_of(width: int, height: int, index: int) -> int {
    height - 1 - index / width
}

/// Buffer index of the pixel at `column` on `scanline` (counted from the bottom).
pub open spec fn index_at(width: int, height: int, column: int, scanline: int) -> int {
    (height - 1 - scanline) * width + column
}

proof fn lemma_split(width: int, height: int, index: int)
    requires
        width > 0,
        height > 0,
        0 <= index < width * height,
    ensures
        index == (index / width) * width + index % width,
        0 <= index % width < width,
        0 <= index / width < height,
{
    lemma_fundamental_div_mod(index, width);
    assert((index / width) * width == width * (index / width)) by (nonlinear_arith);
    lemma_mod_bound(index, width);
    lemma_div_pos_is_pos(index, width);
    assert(index < width * height);
    assert(width * height == height * width) by (nonlinear_arith);
    lemma_multiply_divide_lt(index, width, height);
}

impl RenderSettings {
    /// Column and scanline (counted from the bottom) of the pixel stored at `index`.
    pub fn pixel_position(&self, index: usize) -> (r: (usize, usize))
        requires
            self.wf(),
            index < self.pixels(),
        ensures
            r.0 == column_of(self.width as int, index as int),
            r.1 == scanline_of(self.width as int, self.height as int, index as int),
            r.0 < self.width,
            r.1 < self.height,
    {
        proof {
            lemma_split(self.width as int, self.height as int, index as int);
        }
        let column = index % self.width;
        let row = index / self.width;
        (column, self.height - 1 - row)
    }

    /// Buffer index of the pixel at `column` on `scanline` (counted from the bottom).
    pub fn pixel_index(&self, column: usize, scanline: usize) -> (r: usize)
        requires
            self.wf(),
            column < self.width,
            scanline < self.height,
        ensures
            r == index_at(self.width as int, self.height as int, column as int, scanline as int),
            r < self.pixels(),
    {
        let row = self.height - 1 - scanline;
        proof {
            let w = self.width as int;
            let h = self.height as int;
            assert(row * w + column < h * w) by (nonlinear_arith)
                requires
                    0 <= row < h,
                    0 <= column < w,
            ;
            assert(h * w == w * h) by (nonlinear_arith);
        }
        row * self.width + column
    }
}

/// Position then index gives back the buffer index.
pub proof fn lemma_index_of_position(s: RenderSettings, index: int)
    requires
        s.wf(),
        0 <= index < s.pixels(),
    ensures
        index_at(
            s.width as int,
            s.height as int,
            column_of(s.width as int, index),
            scanline_of(s.width as int, s.height as int, index),
        ) == index,
{
    lemma_split(s.width as int, s.height as int, index);
}

/// Index then position gives back the column and the scanline.
pub proof fn lemma_position_of_index(s: RenderSettings, column: int, scanline: int)
    requires
        s.wf(),
        0 <= column < s.width,
        0 <= scanline < s.height,
    ensures
        column_of(
            s.width as int,
            index_at(s.width as int, s.height as int, column, scanline),
        ) == column,
        scanline_of(
            s.width as int,
            s.height as int,
            index_at(s.width as int, s.height as int, column, scanline),
        ) == scanline,
{
    let w = s.width as int;
    let row = s.height - 1 - scanline;
    let i = index_at(w, s.height as int, column, scanline);
    lemma_fundamental_div_mod_converse(i, w, row, column);
}

/// Buffer order is output order: a later entry lies on a lower scanline, or on
/// the same scanline further right.
pub proof fn lemma_buffer_order(s: RenderSettings, a: int, b: int)
    requires
        s.wf(),
        0 <= a < b < s.pixels(),
    ensures
        scanline_of(s.width as int, s.height as int, a) > scanline_of(
            s.width as int,
            s.height as int,
            b,
        ) || (scanline_of(s.width as int, s.height as int, a) == scanline_of(
            s.width as int,
            s.height as int,
            b,
        ) && column_of(s.width as int, a) < column_of(s.width as int, b)),
{
    let w = s.width as int;
    lemma_split(w, s.height as int, a);
    lemma_split(w, s.height as int, b);
    let qa = a / w;
    let qb = b / w;
    if qa > qb {
        assert(qa * w >= (qb + 1) * w) by (nonlinear_arith)
            requires
                qa >= qb + 1,
                w > 0,
        ;
        assert((qb + 1) * w == qb * w + w) by (nonlinear_arith);
    }
}

} // verus!

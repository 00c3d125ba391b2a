use vstd::prelude::*;

verus! {

use vstd::arithmetic::div_mod::{
    lemma_fundamental_div_mod,
    lemma_fundamental_div_mod_converse,
    lemma_mod_division_less_than_divisor,
    lemma_multiply_divide_lt,
};

/// The cell a row-major walk of a grid of `width` columns reaches at step
/// `k`: first along the row, then on to the next row.
pub open spec fn row_major_cell(width: usize, k: usize) -> (usize, usize)
    recommends
        0 < width,
{
    (k % width, k / width)
}

/// Walks the cells of a `width x height` grid in row-major order: the cell
/// handed out at step `k` is `(k % width, k / width)`.
pub struct SimpleGridIterator {
    width: usize,
    height: usize,
    cursor: usize,
    end: usize,
}

impl SimpleGridIterator {
    /// Number of columns of the grid being walked.
    pub closed spec fn grid_width(self) -> usize {
        self.width
    }

    /// Number of rows of the grid being walked.
    pub closed spec fn grid_height(self) -> usize {
        self.height
    }

    /// How many cells the walk has handed out so far.
    pub closed spec fn emitted(self) -> usize {
        self.cursor
    }

    pub closed spec fn wf(self) -> bool {
        &&& self.end == self.width * self.height
        &&& self.cursor <= self.end
    }

    pub fn new(width: usize, height: usize) -> (it: Self)
        requires
            width * height <= usize::MAX,
        ensures
            it.wf(),
            it.grid_width() == width,
            it.grid_height() == height,
            it.emitted() == 0,
    {
        Self { width, height, cursor: 0, end: width * height }
    }

    /// Hands out the next cell of the row-major walk, or `None` once every
    /// cell of the grid has been seen.
    pub fn next(&mut self) -> (r: Option<(usize, usize)>)
        requires
            old(self).wf(),
        ensures
            final(self).wf(),
            final(self).grid_width() == old(self).grid_width(),
            final(self).grid_height() == old(self).grid_height(),
            old(self).emitted() < old(self).grid_width() * old(self).grid_height() ==> {
                &&& r == Some(row_major_cell(old(self).grid_width(), old(self).emitted()))
                &&& final(self).emitted() == old(self).emitted() + 1
            },
            old(self).emitted() >= old(self).grid_width() * old(self).grid_height() ==> {
                &&& r is None
                &&& final(self).emitted() == old(self).emitted()
                &&& old(self).emitted() == old(self).grid_width() * old(self).grid_height()
            },
    {
        if self.cursor < self.end {
            let i = self.cursor;
            proof {
                assert(self.width != 0) by {
                    if self.width == 0 {
                        assert(self.width * self.height == 0);
                    }
                }
            }
            self.cursor = i + 1;
            Some((i % self.width, i / self.width))
        } else {
            None
        }
    }
}

/// Every cell the row-major walk hands out lies inside the grid: at any
/// step `k` short of `width * height`, the column is below `width` and the
/// row below `height`.
pub proof fn lemma_row_major_cell_in_bounds(width: usize, height: usize, k: usize)
    requires
        k < width * height,
    ensures
        row_major_cell(width, k).0 < width,
        row_major_cell(width, k).1 < height,
{
    assert(width != 0) by {
        if width == 0 {
            assert(width * height == 0);
        }
    }
    lemma_mod_division_less_than_divisor(k as int, width as int);
    lemma_multiply_divide_lt(k as int, width as int, height as int);
}

/// The row-major walk never hands the same cell out twice: distinct steps
/// reach distinct cells.
pub proof fn lemma_row_major_cell_injective(width: usize, k1: usize, k2: usize)
    requires
        0 < width,
        k1 != k2,
    ensures
        row_major_cell(width, k1) != row_major_cell(width, k2),
{
    lemma_fundamental_div_mod(k1 as int, width as int);
    lemma_fundamental_div_mod(k2 as int, width as int);
    if row_major_cell(width, k1) == row_major_cell(width, k2) {
        assert(width as int * (k1 as int / width as int)
            == width as int * (k2 as int / width as int));
    }
}

/// The row-major walk covers the whole grid: every cell `(cx, cy)` with
/// `cx < width` and `cy < height` is handed out, at step
/// `cy * width + cx`.
pub proof fn lemma_row_major_cell_complete(width: usize, height: usize, cx: usize, cy: usize)
    requires
        cx < width,
        cy < height,
        width * height <= usize::MAX,
    ensures
        cy * width + cx < width * height,
        row_major_cell(width, (cy * width + cx) as usize) == (cx, cy),
{
    assert(cy * width + cx < width * height) by (nonlinear_arith)
        requires
            cx < width,
            cy < height,
    ;
    let k = (cy * width + cx) as usize;
    lemma_fundamental_div_mod_converse(k as int, width as int, cy as int, cx as int);
}

} // verus!

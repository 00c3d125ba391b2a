use vstd::prelude::*;

verus! {

use vstd::arithmetic::div_mod::{
    lemma_div_pos_is_pos,
    lemma_fundamental_div_mod,
    lemma_fundamental_div_mod_converse,
    lemma_mod_division_less_than_divisor,
    lemma_multiply_divide_lt,
};
use vstd::arithmetic::mul::lemma_mul_is_commutative;
use crate::simple_grid_iterator::{lemma_row_major_cell_in_bounds, SimpleGridIterator};

/// The pixel an interleaved walk reaches at step `k`.
///
/// The image is split into `jump_x * jump_y` frames, each a lattice of
/// `frame_width * frame_height` pixels spaced `jump_x` apart horizontally
/// and `jump_y` apart vertically. Frame `f` starts at column `f % jump_x`
/// and row `f / jump_x`, and its own cells are walked in row-major order,
/// so the whole picture is covered one coarse lattice at a time.
pub open spec fn grid_cell(
    jump_x: int,
    jump_y: int,
    frame_width: int,
    frame_height: int,
    k: int,
) -> (int, int)
    recommends
        0 < jump_x,
        0 < jump_y,
        0 < frame_width * frame_height,
{
    let cells = frame_width * frame_height;
    let frame = k / cells;
    let within = k % cells;
    let x = within % frame_width;
    let y = within / frame_width;
    (frame % jump_x + x * jump_x, frame / jump_x + y * jump_y)
}

/// Walks the pixels of an image frame by frame, as [`grid_cell`] lays
/// them out: the pixel handed out at step `k` is
/// `grid_cell(jump_x, jump_y, frame_width, frame_height, k)`.
pub struct GridIterator {
    jump_x: usize,
    jump_y: usize,
    frame_width: usize,
    frame_height: usize,
    num_frames: usize,
    frame: usize,
    inner: SimpleGridIterator,
}

impl GridIterator {
    /// Horizontal spacing of each frame's lattice.
    pub closed spec fn jump_x(self) -> usize {
        self.jump_x
    }

    /// Vertical spacing of each frame's lattice.
    pub closed spec fn jump_y(self) -> usize {
        self.jump_y
    }

    /// Number of lattice columns in one frame.
    pub closed spec fn frame_width(self) -> usize {
        self.frame_width
    }

    /// Number of lattice rows in one frame.
    pub closed spec fn frame_height(self) -> usize {
        self.frame_height
    }

    /// How many pixels the walk has handed out so far.
    pub closed spec fn emitted(self) -> int {
        self.frame * (self.frame_width * self.frame_height) + self.inner.emitted()
    }

    /// How many pixels the walk hands out in all.
    pub open spec fn total(self) -> int {
        (self.jump_x() * self.jump_y()) * (self.frame_width() * self.frame_height())
    }

    pub closed spec fn wf(self) -> bool {
        &&& 0 < self.jump_x
        &&& 0 < self.jump_y
        &&& self.num_frames == self.jump_x * self.jump_y
        &&& self.frame <= self.num_frames
        &&& self.inner.wf()
        &&& self.inner.grid_width() == self.frame_width
        &&& self.inner.grid_height() == self.frame_height
        &&& self.frame_width * self.frame_height <= usize::MAX
        &&& self.frame_width * self.jump_x <= usize::MAX
        &&& self.frame_height * self.jump_y <= usize::MAX
        &&& (self.frame < self.num_frames ==> 0 < self.frame_width * self.frame_height)
        &&& (self.frame == self.num_frames ==> self.inner.emitted() == 0)
    }

    /// Hands out the next pixel of the interleaved walk, or `None` once
    /// every frame has been walked.
    pub fn next(&mut self) -> (r: Option<(usize, usize)>)
        requires
            old(self).wf(),
        ensures
            final(self).wf(),
            final(self).jump_x() == old(self).jump_x(),
            final(self).jump_y() == old(self).jump_y(),
            final(self).frame_width() == old(self).frame_width(),
            final(self).frame_height() == old(self).frame_height(),
            old(self).emitted() < old(self).total() ==> ({
                let c = grid_cell(
                    old(self).jump_x() as int,
                    old(self).jump_y() as int,
                    old(self).frame_width() as int,
                    old(self).frame_height() as int,
                    old(self).emitted(),
                );
                &&& r matches Some(p) && p.0 == c.0 && p.1 == c.1
                    && p.0 < old(self).frame_width() * old(self).jump_x()
                    && p.1 < old(self).frame_height() * old(self).jump_y()
                &&& final(self).emitted() == old(self).emitted() + 1
            }),
            old(self).emitted() >= old(self).total() ==> {
                &&& r is None
                &&& final(self).emitted() == old(self).emitted()
                &&& old(self).emitted() == old(self).total()
            },
    {
        if self.frame >= self.num_frames {
            return None;
        }
        let ghost k = self.emitted();
        let ghost e = self.inner.emitted();
        let ghost fri = self.frame as int;
        let ghost cells = self.frame_width as int * self.frame_height as int;
        match self.inner.next() {
            Some((x, y)) => {
                proof {
                    lemma_row_major_cell_in_bounds(self.frame_width, self.frame_height, e);
                    lemma_fundamental_div_mod_converse(
                        old(self).emitted(),
                        cells,
                        fri,
                        e as int,
                    );
                    assert(fri * cells + e < self.num_frames as int * cells)
                        by (nonlinear_arith)
                        requires
                            fri < self.num_frames as int,
                            0 <= e < cells,
                    ;
                }
                Some(place(self.frame, self.jump_x, self.jump_y,
                           self.frame_width, self.frame_height, x, y))
            }
            None => {
                proof {
                    assert(k == (fri + 1) * cells) by (nonlinear_arith)
                        requires
                            k == fri * cells + cells,
                    ;
                }
                self.frame = self.frame + 1;
                self.inner = SimpleGridIterator::new(self.frame_width, self.frame_height);
                if self.frame == self.num_frames {
                    None
                } else {
                    proof {
                        assert((fri + 1) * cells < self.num_frames as int * cells)
                            by (nonlinear_arith)
                            requires
                                fri + 1 < self.num_frames as int,
                                0 < cells,
                        ;
                    }
                    match self.inner.next() {
                        Some((x, y)) => {
                            proof {
                                lemma_row_major_cell_in_bounds(
                                    self.frame_width,
                                    self.frame_height,
                                    0,
                                );
                                lemma_fundamental_div_mod_converse(
                                    old(self).emitted(),
                                    cells,
                                    fri + 1,
                                    0,
                                );
                            }
                            Some(place(self.frame, self.jump_x, self.jump_y,
                                       self.frame_width, self.frame_height, x, y))
                        }
                        None => {
                            // a fresh walk of a non-empty frame always yields a cell
                            proof {
                                assert(false);
                            }
                            None
                        }
                    }
                }
            }
        }
    }
}

/// Where cell `(x, y)` of frame `frame` sits in the image: the frame's
/// lattice starts at `(frame % jump_x, frame / jump_x)` and its cells are
/// spaced `jump_x` columns and `jump_y` rows apart.
fn place(
    frame: usize,
    jump_x: usize,
    jump_y: usize,
    frame_width: usize,
    frame_height: usize,
    x: usize,
    y: usize,
) -> (p: (usize, usize))
    requires
        0 < jump_x,
        0 < jump_y,
        frame < jump_x * jump_y,
        x < frame_width,
        y < frame_height,
        frame_width * jump_x <= usize::MAX,
        frame_height * jump_y <= usize::MAX,
    ensures
        p.0 == frame % jump_x + x * jump_x,
        p.1 == frame / jump_x + y * jump_y,
        p.0 < frame_width * jump_x,
        p.1 < frame_height * jump_y,
{
    proof {
        lemma_mod_division_less_than_divisor(frame as int, jump_x as int);
        lemma_multiply_divide_lt(frame as int, jump_x as int, jump_y as int);
        assert(frame % jump_x + x * jump_x < frame_width * jump_x) by (nonlinear_arith)
            requires
                x < frame_width,
                frame % jump_x < jump_x,
                0 < jump_x,
        ;
        assert(frame / jump_x + y * jump_y < frame_height * jump_y) by (nonlinear_arith)
            requires
                y < frame_height,
                frame / jump_x < jump_y,
                0 < jump_y,
        ;
    }
    (frame % jump_x + x * jump_x, frame / jump_x + y * jump_y)
}

/// Builds the interleaved walk of a `width x height` image with frames
/// spaced `jump_x` columns and `jump_y` rows apart. Each frame is a
/// `width / jump_x` by `height / jump_y` lattice, so when the spacings do
/// not divide the image sides evenly, the ragged right and top remainders
/// are left out of the walk.
pub fn grid_iterator(width: usize, height: usize, jump_x: usize, jump_y: usize) -> (it:
    GridIterator)
    requires
        0 < jump_x,
        0 < jump_y,
        jump_x * jump_y <= usize::MAX,
        (width / jump_x) * (height / jump_y) <= usize::MAX,
    ensures
        it.wf(),
        it.jump_x() == jump_x,
        it.jump_y() == jump_y,
        it.frame_width() == width / jump_x,
        it.frame_height() == height / jump_y,
        it.frame_width() * it.jump_x() <= width,
        it.frame_height() * it.jump_y() <= height,
        it.emitted() == 0,
{
    proof {
        assert(0 < jump_x * jump_y) by (nonlinear_arith)
            requires
                0 < jump_x,
                0 < jump_y,
        ;
    }
    let num_frames = jump_x * jump_y;
    let frame_width = width / jump_x;
    let frame_height = height / jump_y;
    proof {
        lemma_fundamental_div_mod(width as int, jump_x as int);
        lemma_mod_division_less_than_divisor(width as int, jump_x as int);
        lemma_mul_is_commutative(frame_width as int, jump_x as int);
        lemma_fundamental_div_mod(height as int, jump_y as int);
        lemma_mod_division_less_than_divisor(height as int, jump_y as int);
        lemma_mul_is_commutative(frame_height as int, jump_y as int);
        assert(frame_width == 0 || frame_height == 0 ==> frame_width * frame_height == 0)
            by (nonlinear_arith);
        assert(frame_width != 0 && frame_height != 0 ==> 0 < frame_width * frame_height)
            by (nonlinear_arith);
    }
    let inner = SimpleGridIterator::new(frame_width, frame_height);
    let frame: usize = if frame_width == 0 || frame_height == 0 {
        num_frames
    } else {
        0
    };
    GridIterator { jump_x, jump_y, frame_width, frame_height, num_frames, frame, inner }
}

/// How step `k` of the interleaved walk splits into a frame, a cell of
/// that frame, and that frame's place in the lattice, with the range of
/// each part.
proof fn lemma_grid_cell_parts(
    jump_x: int,
    jump_y: int,
    frame_width: int,
    frame_height: int,
    k: int,
)
    requires
        0 < jump_x,
        0 < jump_y,
        0 <= frame_width,
        0 <= frame_height,
        0 <= k < (jump_x * jump_y) * (frame_width * frame_height),
    ensures
        ({
            let cells = frame_width * frame_height;
            let frame = k / cells;
            let within = k % cells;
            let x = within % frame_width;
            let y = within / frame_width;
            &&& 0 < frame_width
            &&& 0 < frame_height
            &&& 0 <= frame < jump_x * jump_y
            &&& 0 <= within < cells
            &&& 0 <= x < frame_width
            &&& 0 <= y < frame_height
            &&& 0 <= frame % jump_x < jump_x
            &&& 0 <= frame / jump_x < jump_y
            &&& k == frame * cells + within
            &&& within == y * frame_width + x
            &&& frame == (frame / jump_x) * jump_x + frame % jump_x
        }),
{
    let cells = frame_width * frame_height;
    assert(0 < frame_width && 0 < frame_height) by (nonlinear_arith)
        requires
            0 <= frame_width,
            0 <= frame_height,
            0 <= k < (jump_x * jump_y) * (frame_width * frame_height),
    ;
    assert(0 < cells) by (nonlinear_arith)
        requires
            cells == frame_width * frame_height,
            0 < frame_width,
            0 < frame_height,
    ;
    let frame = k / cells;
    let within = k % cells;
    lemma_div_pos_is_pos(k, cells);
    lemma_mul_is_commutative(jump_x * jump_y, cells);
    lemma_multiply_divide_lt(k, cells, jump_x * jump_y);
    lemma_mod_division_less_than_divisor(k, cells);
    lemma_mod_division_less_than_divisor(within, frame_width);
    lemma_div_pos_is_pos(within, frame_width);
    lemma_multiply_divide_lt(within, frame_width, frame_height);
    lemma_mod_division_less_than_divisor(frame, jump_x);
    lemma_div_pos_is_pos(frame, jump_x);
    lemma_multiply_divide_lt(frame, jump_x, jump_y);
    lemma_fundamental_div_mod(k, cells);
    lemma_mul_is_commutative(cells, frame);
    lemma_fundamental_div_mod(within, frame_width);
    lemma_mul_is_commutative(frame_width, within / frame_width);
    lemma_fundamental_div_mod(frame, jump_x);
    lemma_mul_is_commutative(jump_x, frame / jump_x);
}

/// The interleaved walk stays inside the region it covers: at every step
/// `k` of the full walk, the pixel lies in the box of
/// `frame_width * jump_x` columns and `frame_height * jump_y` rows.
pub proof fn lemma_grid_cell_in_bounds(
    jump_x: int,
    jump_y: int,
    frame_width: int,
    frame_height: int,
    k: int,
)
    requires
        0 < jump_x,
        0 < jump_y,
        0 <= frame_width,
        0 <= frame_height,
        0 <= k < (jump_x * jump_y) * (frame_width * frame_height),
    ensures
        0 <= grid_cell(jump_x, jump_y, frame_width, frame_height, k).0
            < frame_width * jump_x,
        0 <= grid_cell(jump_x, jump_y, frame_width, frame_height, k).1
            < frame_height * jump_y,
{
    lemma_grid_cell_parts(jump_x, jump_y, frame_width, frame_height, k);
    let cells = frame_width * frame_height;
    let frame = k / cells;
    let within = k % cells;
    let x = within % frame_width;
    let y = within / frame_width;
    assert(0 <= frame % jump_x + x * jump_x < frame_width * jump_x) by (nonlinear_arith)
        requires
            0 <= x < frame_width,
            0 <= frame % jump_x < jump_x,
    ;
    assert(0 <= frame / jump_x + y * jump_y < frame_height * jump_y) by (nonlinear_arith)
        requires
            0 <= y < frame_height,
            0 <= frame / jump_x < jump_y,
            0 < jump_y,
    ;
}

/// The interleaved walk never visits a pixel twice: distinct steps of the
/// full walk reach distinct pixels. Workers that own disjoint ranges of
/// steps therefore own disjoint parts of the image.
pub proof fn lemma_grid_cell_injective(
    jump_x: int,
    jump_y: int,
    frame_width: int,
    frame_height: int,
    k1: int,
    k2: int,
)
    requires
        0 < jump_x,
        0 < jump_y,
        0 <= frame_width,
        0 <= frame_height,
        0 <= k1 < (jump_x * jump_y) * (frame_width * frame_height),
        0 <= k2 < (jump_x * jump_y) * (frame_width * frame_height),
        k1 != k2,
    ensures
        grid_cell(jump_x, jump_y, frame_width, frame_height, k1)
            != grid_cell(jump_x, jump_y, frame_width, frame_height, k2),
{
    lemma_grid_cell_parts(jump_x, jump_y, frame_width, frame_height, k1);
    lemma_grid_cell_parts(jump_x, jump_y, frame_width, frame_height, k2);
    let cells = frame_width * frame_height;
    let f1 = k1 / cells;
    let w1 = k1 % cells;
    let x1 = w1 % frame_width;
    let y1 = w1 / frame_width;
    let f2 = k2 / cells;
    let w2 = k2 % cells;
    let x2 = w2 % frame_width;
    let y2 = w2 / frame_width;
    if grid_cell(jump_x, jump_y, frame_width, frame_height, k1)
        == grid_cell(jump_x, jump_y, frame_width, frame_height, k2) {
        let px = f1 % jump_x + x1 * jump_x;
        let py = f1 / jump_x + y1 * jump_y;
        lemma_fundamental_div_mod_converse(px, jump_x, x1, f1 % jump_x);
        lemma_fundamental_div_mod_converse(px, jump_x, x2, f2 % jump_x);
        lemma_fundamental_div_mod_converse(py, jump_y, y1, f1 / jump_x);
        lemma_fundamental_div_mod_converse(py, jump_y, y2, f2 / jump_x);
        assert(f1 == f2);
        assert(w1 == w2);
        assert(k1 == k2);
    }
}

/// The interleaved walk covers its region: every pixel of the box of
/// `frame_width * jump_x` columns and `frame_height * jump_y` rows is
/// reached, and the returned step is the one that reaches it.
pub proof fn lemma_grid_cell_complete(
    jump_x: int,
    jump_y: int,
    frame_width: int,
    frame_height: int,
    px: int,
    py: int,
) -> (k: int)
    requires
        0 < jump_x,
        0 < jump_y,
        0 <= px < frame_width * jump_x,
        0 <= py < frame_height * jump_y,
    ensures
        0 <= k < (jump_x * jump_y) * (frame_width * frame_height),
        grid_cell(jump_x, jump_y, frame_width, frame_height, k) == (px, py),
{
    assert(0 < frame_width && 0 < frame_height) by (nonlinear_arith)
        requires
            0 < jump_x,
            0 < jump_y,
            0 <= px < frame_width * jump_x,
            0 <= py < frame_height * jump_y,
    ;
    let x = px / jump_x;
    let fx = px % jump_x;
    let y = py / jump_y;
    let fy = py % jump_y;
    lemma_div_pos_is_pos(px, jump_x);
    lemma_mul_is_commutative(frame_width, jump_x);
    lemma_multiply_divide_lt(px, jump_x, frame_width);
    lemma_mod_division_less_than_divisor(px, jump_x);
    lemma_div_pos_is_pos(py, jump_y);
    lemma_mul_is_commutative(frame_height, jump_y);
    lemma_multiply_divide_lt(py, jump_y, frame_height);
    lemma_mod_division_less_than_divisor(py, jump_y);
    let frame = fy * jump_x + fx;
    let cells = frame_width * frame_height;
    let within = y * frame_width + x;
    let k = frame * cells + within;
    assert(0 <= frame < jump_x * jump_y) by (nonlinear_arith)
        requires
            0 <= fx < jump_x,
            0 <= fy < jump_y,
            frame == fy * jump_x + fx,
    ;
    assert(0 <= within < cells) by (nonlinear_arith)
        requires
            0 <= x < frame_width,
            0 <= y < frame_height,
            within == y * frame_width + x,
            cells == frame_width * frame_height,
    ;
    assert(0 <= k < (jump_x * jump_y) * cells) by (nonlinear_arith)
        requires
            0 <= frame < jump_x * jump_y,
            0 <= within < cells,
            k == frame * cells + within,
    ;
    lemma_fundamental_div_mod_converse(k, cells, frame, within);
    lemma_fundamental_div_mod_converse(within, frame_width, y, x);
    lemma_fundamental_div_mod_converse(frame, jump_x, fy, fx);
    lemma_fundamental_div_mod(px, jump_x);
    lemma_mul_is_commutative(jump_x, x);
    lemma_fundamental_div_mod(py, jump_y);
    lemma_mul_is_commutative(jump_y, y);
    k
}

} // verus!

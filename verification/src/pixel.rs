use vstd::prelude::*;

verus! {

use vstd::arithmetic::div_mod::{
    lemma_mod_division_less_than_divisor,
    lemma_multiply_divide_lt,
};

/// Maps a flat, row-major pixel index `n` of a `width x height` image to
/// the coordinates the camera convention uses: the column, and the row
/// counted from the bottom of the picture (image row 0 is the top, so the
/// vertical axis is flipped: `height - n / width - 1`).
pub fn pixel_coords(n: u32, width: u32, height: u32) -> (p: (u32, u32))
    requires
        n < width * height,
    ensures
        p.0 == n as int % width as int,
        p.1 == height - 1 - n as int / width as int,
        p.0 < width,
        p.1 < height,
{
    proof {
        assert(width != 0) by {
            if width == 0 {
                assert(width * height == 0);
            }
        }
        lemma_mod_division_less_than_divisor(n as int, width as int);
        lemma_multiply_divide_lt(n as int, width as int, height as int);
    }
    (n % width, height - n / width - 1)
}

} // verus!

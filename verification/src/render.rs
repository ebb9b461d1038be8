//! The sequential render routine: fills a grayscale buffer pixel by pixel.

use vstd::prelude::*;
use crate::complex::ComplexPoint;
use crate::escape::ITERATION_LIMIT;
use crate::escape::escape_time;
use crate::escape::escape_time_spec;
use crate::mapper::MAX_DIMENSION;
use crate::mapper::pixel_to_point;
use crate::mapper::point_spec;

verus! {

/// Grayscale value for an escape result: 0 (black) for a point taken to be
/// in the set, and `255 - k` for one that escapes at index `k`, so the
/// fastest escapes are the brightest.
pub open spec fn shade_of(escape: Option<usize>) -> u8 {
    match escape {
        None => 0u8,
        Some(k) => (255 - k) as u8,
    }
}

/// Shade of one pixel: map it onto the viewport and run the escape test
/// with the renderer's iteration ceiling.
pub open spec fn pixel_shade(
    bounds: (usize, usize),
    pixel: (usize, usize),
    upper_left: ComplexPoint,
    lower_right: ComplexPoint,
) -> u8 {
    shade_of(escape_time_spec(point_spec(bounds, pixel, upper_left, lower_right), ITERATION_LIMIT))
}

/// The fully rendered buffer: row-major, one byte per pixel, entry
/// `row * width + column` holding that pixel's shade.
pub open spec fn rendered_grid(
    bounds: (usize, usize),
    upper_left: ComplexPoint,
    lower_right: ComplexPoint,
) -> Seq<u8> {
    Seq::new(
        (bounds.0 * bounds.1) as nat,
        |k: int|
            pixel_shade(
                bounds,
                ((k % (bounds.0 as int)) as usize, (k / (bounds.0 as int)) as usize),
                upper_left,
                lower_right,
            ),
    )
}

/// Renders the whole grid into `pixels`, row-major: every byte is written
/// and holds the shade of its pixel under the given viewport.
#[verifier::loop_isolation(false)]
pub fn render(
    pixels: &mut Vec<u8>,
    bounds: (usize, usize),
    upper_left: ComplexPoint,
    lower_right: ComplexPoint,
)
    requires
        old(pixels).len() == bounds.0 * bounds.1,
        1 <= bounds.0 <= MAX_DIMENSION,
        1 <= bounds.1 <= MAX_DIMENSION,
    ensures
        final(pixels)@ == rendered_grid(bounds, upper_left, lower_right),
{
    let width = bounds.0;
    let height = bounds.1;
    let mut row: usize = 0;
    while row < height
        invariant
            row <= height,
            pixels.len() == width * height,
            forall|k: int|
                0 <= k < row * width ==> pixels@[k] == rendered_grid(
                    bounds,
                    upper_left,
                    lower_right,
                )[k],
        decreases height - row,
    {
        let mut column: usize = 0;
        while column < width
            invariant
                row < height,
                column <= width,
                pixels.len() == width * height,
                forall|k: int|
                    0 <= k < row * width + column ==> pixels@[k] == rendered_grid(
                        bounds,
                        upper_left,
                        lower_right,
                    )[k],
            decreases width - column,
        {
            let point = pixel_to_point(bounds, (column, row), upper_left, lower_right);
            let shade: u8 = match escape_time(point, ITERATION_LIMIT) {
                None => 0u8,
                Some(count) => (255 - count) as u8,
            };
            assert(row * width + column < width * height) by (nonlinear_arith)
                requires
                    row < height,
                    column < width,
            ;
            let index = row * width + column;
            pixels[index] = shade;
            proof {
                vstd::arithmetic::div_mod::lemma_fundamental_div_mod_converse(
                    index as int,
                    width as int,
                    row as int,
                    column as int,
                );
                assert(pixels@[index as int] == rendered_grid(
                    bounds,
                    upper_left,
                    lower_right,
                )[index as int]);
            }
            column = column + 1;
        }
        row = row + 1;
        assert(row * width == (row - 1) * width + width) by (nonlinear_arith);
    }
    proof {
        assert(height * width == width * height) by (nonlinear_arith);
        assert(pixels@ =~= rendered_grid(bounds, upper_left, lower_right));
    }
}

} // verus!

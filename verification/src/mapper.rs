//! The coordinate mapper: pixel positions to points of the complex plane.

use vstd::prelude::*;
use crate::complex::ComplexPoint;
use crate::complex::real_add_bits;
use crate::complex::real_sub_bits;
use crate::complex::real_mul_bits;
use crate::complex::real_div_bits;
use crate::complex::real_of_u32_bits;
use crate::complex::real_add;
use crate::complex::real_sub;
use crate::complex::real_mul;
use crate::complex::real_div;
use crate::complex::real_of_u32;

verus! {

/// Largest pixel coordinate or image dimension the mapper accepts: the
/// conversion of a coordinate to a double goes through `u32`.
pub const MAX_DIMENSION: usize = 0xffff_ffff;

/// The point that `pixel` maps to, written over the names of the double
/// operations: `upper_left.re + column * (lower_right.re - upper_left.re) /
/// width` for the real part, and `upper_left.im - row * (upper_left.im -
/// lower_right.im) / height` for the imaginary part.
pub open spec fn point_spec(
    bounds: (usize, usize),
    pixel: (usize, usize),
    upper_left: ComplexPoint,
    lower_right: ComplexPoint,
) -> ComplexPoint {
    let width_span = real_sub_bits(lower_right.re_bits, upper_left.re_bits);
    let height_span = real_sub_bits(upper_left.im_bits, lower_right.im_bits);
    ComplexPoint {
        re_bits: real_add_bits(
            upper_left.re_bits,
            real_div_bits(
                real_mul_bits(real_of_u32_bits(pixel.0 as u32), width_span),
                real_of_u32_bits(bounds.0 as u32),
            ),
        ),
        im_bits: real_sub_bits(
            upper_left.im_bits,
            real_div_bits(
                real_mul_bits(real_of_u32_bits(pixel.1 as u32), height_span),
                real_of_u32_bits(bounds.1 as u32),
            ),
        ),
    }
}

/// Maps a pixel position of an image of `bounds.0` columns by `bounds.1`
/// rows onto the viewport with corners `upper_left` and `lower_right`.
///
/// The mapping is linear; a pixel outside the grid (for instance a row equal
/// to the height) extrapolates it, which is how a band of rows derives its
/// own viewport corners.
pub fn pixel_to_point(
    bounds: (usize, usize),
    pixel: (usize, usize),
    upper_left: ComplexPoint,
    lower_right: ComplexPoint,
) -> (r: ComplexPoint)
    requires
        1 <= bounds.0 <= MAX_DIMENSION,
        1 <= bounds.1 <= MAX_DIMENSION,
        pixel.0 <= MAX_DIMENSION,
        pixel.1 <= MAX_DIMENSION,
    ensures
        r == point_spec(bounds, pixel, upper_left, lower_right),
{
    let width_span = real_sub(lower_right.re_bits, upper_left.re_bits);
    let height_span = real_sub(upper_left.im_bits, lower_right.im_bits);
    let re_bits = real_add(
        upper_left.re_bits,
        real_div(
            real_mul(real_of_u32(pixel.0 as u32), width_span),
            real_of_u32(bounds.0 as u32),
        ),
    );
    let im_bits = real_sub(
        upper_left.im_bits,
        real_div(
            real_mul(real_of_u32(pixel.1 as u32), height_span),
            real_of_u32(bounds.1 as u32),
        ),
    );
    ComplexPoint { re_bits, im_bits }
}

} // verus!

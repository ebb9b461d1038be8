//! Bit-level model of double-precision complex arithmetic.
//!
//! The renderer works on 64-bit floating-point numbers, which this crate
//! handles purely through their bit patterns (`u64`). Every arithmetic step
//! is carried out by an outside routine and is described by an uninterpreted
//! function of the operand bits alone, so all logic built on top of these
//! operations is exact over those names.

use vstd::prelude::*;

verus! {

/// A point of the complex plane: the bit patterns of its double-precision
/// real and imaginary components.
#[derive(Clone, Copy, PartialEq, Eq, Structural, Debug)]
pub struct ComplexPoint {
    pub re_bits: u64,
    pub im_bits: u64,
}

impl ComplexPoint {
    pub fn new(re_bits: u64, im_bits: u64) -> (r: ComplexPoint)
        ensures
            r == (ComplexPoint { re_bits, im_bits }),
    {
        ComplexPoint { re_bits, im_bits }
    }
}

/// Bit pattern of the sum of the doubles with bit patterns `a` and `b`.
pub uninterp spec fn real_add_bits(a: u64, b: u64) -> u64;

/// Bit pattern of the difference of the doubles with bit patterns `a` and `b`.
pub uninterp spec fn real_sub_bits(a: u64, b: u64) -> u64;

/// Bit pattern of the product of the doubles with bit patterns `a` and `b`.
pub uninterp spec fn real_mul_bits(a: u64, b: u64) -> u64;

/// Bit pattern of the quotient of the doubles with bit patterns `a` and `b`.
pub uninterp spec fn real_div_bits(a: u64, b: u64) -> u64;

/// Bit pattern of the double that `n` converts to.
pub uninterp spec fn real_of_u32_bits(n: u32) -> u64;

/// Whether the double with bit pattern `a` compares greater than the one
/// with bit pattern `b`.
pub uninterp spec fn real_gt_bits(a: u64, b: u64) -> bool;

/// Component bit patterns of the complex product `a * b`.
pub uninterp spec fn complex_mul_bits(a_re: u64, a_im: u64, b_re: u64, b_im: u64) -> (u64, u64);

/// Component bit patterns of the complex sum `a + b`.
pub uninterp spec fn complex_add_bits(a_re: u64, a_im: u64, b_re: u64, b_im: u64) -> (u64, u64);

/// Bit pattern of the squared magnitude of the complex number with the given
/// component bit patterns.
pub uninterp spec fn norm_sqr_bits(re: u64, im: u64) -> u64;

/// Relies on `+` for doubles: the sum's bit pattern is a function of the
/// operand bit patterns alone. `Complex64::new` pins the type that
/// `bytemuck::cast` reinterprets the operand bits as.
#[verifier::external_body]
pub(crate) fn real_add(a: u64, b: u64) -> (r: u64)
    ensures
        r == real_add_bits(a, b),
{
    let x = num::complex::Complex64::new(bytemuck::cast(a), bytemuck::cast(b));
    (x.re + x.im).to_bits()
}

/// Relies on `-` for doubles: the difference's bit pattern is a function of
/// the operand bit patterns alone.
#[verifier::external_body]
pub(crate) fn real_sub(a: u64, b: u64) -> (r: u64)
    ensures
        r == real_sub_bits(a, b),
{
    let x = num::complex::Complex64::new(bytemuck::cast(a), bytemuck::cast(b));
    (x.re - x.im).to_bits()
}

/// Relies on `*` for doubles: the product's bit pattern is a function of the
/// operand bit patterns alone.
#[verifier::external_body]
pub(crate) fn real_mul(a: u64, b: u64) -> (r: u64)
    ensures
        r == real_mul_bits(a, b),
{
    let x = num::complex::Complex64::new(bytemuck::cast(a), bytemuck::cast(b));
    (x.re * x.im).to_bits()
}

/// Relies on `/` for doubles: the quotient's bit pattern is a function of
/// the operand bit patterns alone. A zero divisor yields an infinity or a
/// NaN bit pattern, never a panic.
#[verifier::external_body]
pub(crate) fn real_div(a: u64, b: u64) -> (r: u64)
    ensures
        r == real_div_bits(a, b),
{
    let x = num::complex::Complex64::new(bytemuck::cast(a), bytemuck::cast(b));
    (x.re / x.im).to_bits()
}

/// Relies on `From<u32>` for doubles: the (exact) conversion depends on `n`
/// alone.
#[verifier::external_body]
pub(crate) fn real_of_u32(n: u32) -> (r: u64)
    ensures
        r == real_of_u32_bits(n),
{
    let x = num::complex::Complex64::new(n.into(), n.into());
    x.re.to_bits()
}

/// Relies on `>` for doubles: the comparison depends on the operand bit
/// patterns alone.
#[verifier::external_body]
pub(crate) fn real_gt(a: u64, b: u64) -> (r: bool)
    ensures
        r == real_gt_bits(a, b),
{
    let x = num::complex::Complex64::new(bytemuck::cast(a), bytemuck::cast(b));
    x.re > x.im
}

/// Relies on `num::complex::Complex64`'s `Mul`: the product's component bit
/// patterns are a function of the operand bit patterns alone.
#[verifier::external_body]
pub(crate) fn complex_mul(a_re: u64, a_im: u64, b_re: u64, b_im: u64) -> (r: (u64, u64))
    ensures
        r == complex_mul_bits(a_re, a_im, b_re, b_im),
{
    let a = num::complex::Complex64::new(bytemuck::cast(a_re), bytemuck::cast(a_im));
    let b = num::complex::Complex64::new(bytemuck::cast(b_re), bytemuck::cast(b_im));
    let p = a * b;
    (p.re.to_bits(), p.im.to_bits())
}

/// Relies on `num::complex::Complex64`'s `Add`: the sum's component bit
/// patterns are a function of the operand bit patterns alone.
#[verifier::external_body]
pub(crate) fn complex_add(a_re: u64, a_im: u64, b_re: u64, b_im: u64) -> (r: (u64, u64))
    ensures
        r == complex_add_bits(a_re, a_im, b_re, b_im),
{
    let a = num::complex::Complex64::new(bytemuck::cast(a_re), bytemuck::cast(a_im));
    let b = num::complex::Complex64::new(bytemuck::cast(b_re), bytemuck::cast(b_im));
    let s = a + b;
    (s.re.to_bits(), s.im.to_bits())
}

/// Relies on `num::complex::Complex64::norm_sqr`: the squared magnitude's
/// bit pattern is a function of the component bit patterns alone.
#[verifier::external_body]
pub(crate) fn complex_norm_sqr(re: u64, im: u64) -> (r: u64)
    ensures
        r == norm_sqr_bits(re, im),
{
    let z = num::complex::Complex64::new(bytemuck::cast(re), bytemuck::cast(im));
    z.norm_sqr().to_bits()
}

} // verus!

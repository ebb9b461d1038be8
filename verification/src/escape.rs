//! The escape-time evaluator: a bounded divergence test for points of the
//! complex plane under the iteration `z <- z * z + c`.

use vstd::prelude::*;
use crate::complex::ComplexPoint;
use crate::complex::complex_mul_bits;
use crate::complex::complex_add_bits;
use crate::complex::norm_sqr_bits;
use crate::complex::real_gt_bits;
use crate::complex::real_of_u32_bits;
use crate::complex::complex_mul;
use crate::complex::complex_add;
use crate::complex::complex_norm_sqr;
use crate::complex::real_gt;
use crate::complex::real_of_u32;

verus! {

/// Iteration ceiling used by the renderer: an escape index is always below
/// it, so the index fits a grayscale byte.
pub const ITERATION_LIMIT: usize = 255;

/// The squared escape radius: once `|z|^2` exceeds it, the orbit diverges.
pub const ESCAPE_RADIUS_SQUARED: u32 = 4;

/// Component bit patterns of the orbit of `c` after `n` steps:
/// `orbit(c, 0) == (0, 0)` (the bit patterns of zero) and
/// `orbit(c, n + 1) == orbit(c, n)^2 + c`.
pub open spec fn orbit(c: ComplexPoint, n: nat) -> (u64, u64)
    decreases n,
{
    if n == 0 {
        (0u64, 0u64)
    } else {
        let z = orbit(c, (n - 1) as nat);
        let sq = complex_mul_bits(z.0, z.1, z.0, z.1);
        complex_add_bits(sq.0, sq.1, c.re_bits, c.im_bits)
    }
}

/// Whether the escape test succeeds at iteration index `k`: after `k + 1`
/// steps the orbit's squared magnitude exceeds the squared escape radius.
pub open spec fn escaped_at(c: ComplexPoint, k: nat) -> bool {
    let z = orbit(c, k + 1);
    real_gt_bits(norm_sqr_bits(z.0, z.1), real_of_u32_bits(ESCAPE_RADIUS_SQUARED))
}

/// First iteration index in `[k, limit)` at which the escape test succeeds,
/// if any.
pub open spec fn escape_time_from(c: ComplexPoint, k: usize, limit: usize) -> Option<usize>
    decreases limit - k,
{
    if k >= limit {
        None
    } else if escaped_at(c, k as nat) {
        Some(k)
    } else {
        escape_time_from(c, (k + 1) as usize, limit)
    }
}

/// First iteration index below `limit` at which the escape test succeeds,
/// if any.
pub open spec fn escape_time_spec(c: ComplexPoint, limit: usize) -> Option<usize> {
    escape_time_from(c, 0, limit)
}

/// Runs the escape test on `c` for at most `limit` iterations.
///
/// Returns `Some(k)` exactly when `k` is the first iteration index at which
/// the orbit's squared magnitude exceeds the squared escape radius, and
/// `None` when the test fails for every index below `limit` — the point is
/// then taken to lie in the set.
pub fn escape_time(c: ComplexPoint, limit: usize) -> (r: Option<usize>)
    ensures
        r == escape_time_spec(c, limit),
        r matches Some(k) ==> k < limit && escaped_at(c, k as nat)
            && (forall|j: nat| j < k ==> !escaped_at(c, j)),
        r is None ==> forall|j: nat| j < limit ==> !escaped_at(c, j),
{
    let threshold = real_of_u32(ESCAPE_RADIUS_SQUARED);
    let mut z_re: u64 = 0;
    let mut z_im: u64 = 0;
    let mut k: usize = 0;
    while k < limit
        invariant
            k <= limit,
            (z_re, z_im) == orbit(c, k as nat),
            threshold == real_of_u32_bits(ESCAPE_RADIUS_SQUARED),
            forall|j: nat| j < k ==> !escaped_at(c, j),
            escape_time_spec(c, limit) == escape_time_from(c, k, limit),
        decreases limit - k,
    {
        let sq = complex_mul(z_re, z_im, z_re, z_im);
        let z_next = complex_add(sq.0, sq.1, c.re_bits, c.im_bits);
        z_re = z_next.0;
        z_im = z_next.1;
        assert((z_re, z_im) == orbit(c, (k + 1) as nat));
        let magnitude = complex_norm_sqr(z_re, z_im);
        if real_gt(magnitude, threshold) {
            assert(escaped_at(c, k as nat));
            return Some(k);
        }
        k = k + 1;
    }
    None
}

/// Escape is stable under a larger iteration ceiling: an index found below
/// `l1` is still the one found below any `l2 >= l1`, and a point that the
/// larger ceiling classifies as bounded is so classified by the smaller.
pub proof fn lemma_escape_time_monotone(c: ComplexPoint, l1: usize, l2: usize)
    requires
        l1 <= l2,
    ensures
        escape_time_spec(c, l1) matches Some(k) ==> escape_time_spec(c, l2) == Some(k),
        escape_time_spec(c, l2) is None ==> escape_time_spec(c, l1) is None,
{
    lemma_escape_time_from_monotone(c, 0, l1, l2);
}

proof fn lemma_escape_time_from_monotone(c: ComplexPoint, k: usize, l1: usize, l2: usize)
    requires
        l1 <= l2,
    ensures
        escape_time_from(c, k, l1) matches Some(i) ==> escape_time_from(c, k, l2) == Some(i),
        escape_time_from(c, k, l2) is None ==> escape_time_from(c, k, l1) is None,
    decreases l1 - k,
{
    if k < l1 && !escaped_at(c, k as nat) {
        lemma_escape_time_from_monotone(c, (k + 1) as usize, l1, l2);
    }
}

} // verus!

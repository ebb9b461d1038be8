//! The band partitioner: splits the pixel grid into contiguous row bands,
//! each with its own viewport derived through the mapper from the full one.

use vstd::prelude::*;
use crate::complex::ComplexPoint;
use crate::mapper::MAX_DIMENSION;
use crate::mapper::pixel_to_point;
use crate::mapper::point_spec;

verus! {

/// One worker's share of the image: the rows `[top, top + height)` of the
/// full grid, with the viewport corners that cover exactly those rows.
#[derive(Clone, Copy, PartialEq, Eq, Structural, Debug)]
pub struct Band {
    pub top: usize,
    pub height: usize,
    pub upper_left: ComplexPoint,
    pub lower_right: ComplexPoint,
}

/// Rows assigned to each band: `height / workers + 1`, biased up so that
/// the bands always cover the grid despite the truncating division.
pub open spec fn rows_per_band(height: usize, workers: usize) -> int
    recommends
        workers >= 1,
{
    height as int / workers as int + 1
}

/// Number of non-empty bands the partition produces.
pub open spec fn band_count(height: usize, workers: usize) -> int
    recommends
        workers >= 1,
{
    (height + rows_per_band(height, workers) - 1) / rows_per_band(height, workers)
}

/// First row of band `i`.
pub open spec fn band_top(height: usize, workers: usize, i: int) -> int {
    i * rows_per_band(height, workers)
}

/// Number of rows of band `i`: the full share except for the final band,
/// which takes whatever is left.
pub open spec fn band_height(height: usize, workers: usize, i: int) -> int {
    let rpb = rows_per_band(height, workers);
    let top = band_top(height, workers, i);
    if height - top <= rpb {
        height - top
    } else {
        rpb
    }
}

/// Band `i` of the partition, its viewport corners derived from the full
/// bounds and viewport (never accumulated band to band): the upper left
/// corner maps pixel `(0, top)` and the lower right `(width, top + height)`.
pub open spec fn band_spec(
    bounds: (usize, usize),
    upper_left: ComplexPoint,
    lower_right: ComplexPoint,
    workers: usize,
    i: int,
) -> Band {
    let top = band_top(bounds.1, workers, i);
    let bh = band_height(bounds.1, workers, i);
    Band {
        top: top as usize,
        height: bh as usize,
        upper_left: point_spec(bounds, (0usize, top as usize), upper_left, lower_right),
        lower_right: point_spec(
            bounds,
            (bounds.0, (top + bh) as usize),
            upper_left,
            lower_right,
        ),
    }
}

/// Basic shape of the partition: every band is non-empty and stays inside
/// the grid, every band but the last holds exactly `rows_per_band` rows,
/// and the last one ends exactly at `height`.
pub proof fn lemma_band_structure(height: usize, workers: usize, i: int)
    requires
        workers >= 1,
        height >= 1,
        0 <= i < band_count(height, workers),
    ensures
        band_top(height, workers, i) >= 0,
        band_height(height, workers, i) >= 1,
        band_top(height, workers, i) + band_height(height, workers, i) <= height,
        i < band_count(height, workers) - 1 ==> band_height(height, workers, i)
            == rows_per_band(height, workers),
        i == band_count(height, workers) - 1 ==> band_top(height, workers, i)
            + band_height(height, workers, i) == height,
    decreases 0int,
{
    let rpb = rows_per_band(height, workers);
    let n = band_count(height, workers);
    assert(rpb >= 1);
    vstd::arithmetic::div_mod::lemma_fundamental_div_mod(height + rpb - 1, rpb);
    let rem = (height + rpb - 1) % rpb;
    assert(height + rpb - 1 == rpb * n + rem);
    assert(n * rpb >= height && (n - 1) * rpb < height) by (nonlinear_arith)
        requires
            height + rpb - 1 == rpb * n + rem,
            0 <= rem < rpb,
            rpb >= 1,
    ;
    assert(i * rpb <= (n - 1) * rpb) by (nonlinear_arith)
        requires
            i <= n - 1,
            rpb >= 1,
    ;
    if i < n - 1 {
        assert(height - i * rpb > rpb) by (nonlinear_arith)
            requires
                i <= n - 2,
                rpb >= 1,
                (n - 1) * rpb < height,
        ;
    }
    if i == n - 1 {
        assert(height - i * rpb <= rpb) by (nonlinear_arith)
            requires
                i == n - 1,
                n * rpb >= height,
    ;
    }
}

/// Coverage and disjointness of the partition: every row below `height`
/// lies in band `row / rows_per_band` and in no other band, so the bands'
/// row ranges are pairwise disjoint and their union is exactly the grid.
pub proof fn lemma_band_partition(height: usize, workers: usize, row: usize)
    requires
        workers >= 1,
        row < height,
    ensures
        ({
            let i = row as int / rows_per_band(height, workers);
            &&& 0 <= i < band_count(height, workers)
            &&& band_top(height, workers, i) <= row < band_top(height, workers, i)
                + band_height(height, workers, i)
            &&& forall|j: int|
                0 <= j < band_count(height, workers) && j != i
                    ==> !(#[trigger] band_top(height, workers, j) <= row < band_top(
                    height,
                    workers,
                    j,
                ) + band_height(height, workers, j))
        }),
{
    let rpb = rows_per_band(height, workers);
    let n = band_count(height, workers);
    let i = row as int / rpb;
    assert(rpb >= 1);
    vstd::arithmetic::div_mod::lemma_fundamental_div_mod(row as int, rpb);
    let r = row as int % rpb;
    assert(row == rpb * i + r);
    vstd::arithmetic::div_mod::lemma_fundamental_div_mod(height + rpb - 1, rpb);
    let rem = (height + rpb - 1) % rpb;
    assert(height + rpb - 1 == rpb * n + rem);
    assert(n * rpb >= height) by (nonlinear_arith)
        requires
            height + rpb - 1 == rpb * n + rem,
            0 <= rem < rpb,
            rpb >= 1,
    ;
    assert(0 <= i && i < n) by (nonlinear_arith)
        requires
            row == rpb * i + r,
            0 <= r < rpb,
            row < height,
            n * rpb >= height,
            rpb >= 1,
    ;
    assert(band_top(height, workers, i) <= row < band_top(height, workers, i)
        + band_height(height, workers, i));
    assert forall|j: int|
        0 <= j < n && j != i implies !(#[trigger] band_top(height, workers, j) <= row < band_top(
        height,
        workers,
        j,
    ) + band_height(height, workers, j)) by {
        if band_top(height, workers, j) <= row < band_top(height, workers, j) + band_height(
            height,
            workers,
            j,
        ) {
            let rj = row - j * rpb;
            assert(0 <= rj < rpb);
            vstd::arithmetic::div_mod::lemma_fundamental_div_mod_converse(
                row as int,
                rpb,
                j,
                rj,
            );
        }
    }
}

/// Splits the grid into consecutive bands of `height / workers + 1` rows
/// each (the final band may be shorter), every band's viewport derived from
/// the full bounds and viewport through the mapper.
#[verifier::loop_isolation(false)]
pub fn plan_bands(
    bounds: (usize, usize),
    upper_left: ComplexPoint,
    lower_right: ComplexPoint,
    workers: usize,
) -> (bands: Vec<Band>)
    requires
        1 <= bounds.0 <= MAX_DIMENSION,
        1 <= bounds.1 <= MAX_DIMENSION,
        workers >= 1,
        bounds.1 + bounds.1 / workers + 1 <= usize::MAX,
    ensures
        bands@.len() == band_count(bounds.1, workers),
        forall|i: int|
            0 <= i < bands@.len() ==> bands@[i] == band_spec(
                bounds,
                upper_left,
                lower_right,
                workers,
                i,
            ),
{
    let height = bounds.1;
    let rpb = height / workers + 1;
    let mut bands: Vec<Band> = Vec::new();
    let mut top: usize = 0;
    proof {
        assert(bands@.len() == 0);
        assert(bands@.len() * rpb == 0) by (nonlinear_arith)
            requires
                bands@.len() == 0,
        ;
    }
    while top < height
        invariant
            rpb == rows_per_band(height, workers),
            top == bands@.len() * rpb,
            bands@.len() >= 1 ==> (bands@.len() - 1) * rpb < height,
            forall|i: int|
                0 <= i < bands@.len() ==> bands@[i] == band_spec(
                    bounds,
                    upper_left,
                    lower_right,
                    workers,
                    i,
                ),
        decreases height + rpb - top,
    {
        let band_rows = if height - top <= rpb {
            height - top
        } else {
            rpb
        };
        let band_upper_left = pixel_to_point(bounds, (0, top), upper_left, lower_right);
        let band_lower_right = pixel_to_point(
            bounds,
            (bounds.0, top + band_rows),
            upper_left,
            lower_right,
        );
        let band = Band {
            top,
            height: band_rows,
            upper_left: band_upper_left,
            lower_right: band_lower_right,
        };
        proof {
            let i = bands@.len() as int;
            assert(band_top(height, workers, i) == top);
            assert(band == band_spec(bounds, upper_left, lower_right, workers, i));
        }
        bands.push(band);
        proof {
            assert(bands@.len() * rpb == (bands@.len() - 1) * rpb + rpb) by (nonlinear_arith);
        }
        top = top + rpb;
    }
    proof {
        let n = bands@.len() as int;
        let rpbi = rows_per_band(height, workers);
        if n == 0 {
            assert(top == 0);
            assert(false);
        }
        assert(n * rpbi >= height);
        assert((n - 1) * rpbi < height);
        let rem = height + rpbi - 1 - n * rpbi;
        assert(0 <= rem < rpbi) by (nonlinear_arith)
            requires
                n * rpbi >= height,
                (n - 1) * rpbi < height,
                rem == height + rpbi - 1 - n * rpbi,
                rpbi >= 1,
        ;
        vstd::arithmetic::div_mod::lemma_fundamental_div_mod_converse(
            height + rpbi - 1,
            rpbi,
            n,
            rem,
        );
    }
    bands
}

} // verus!

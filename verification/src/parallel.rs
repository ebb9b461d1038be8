//! The parallel scheduler: renders each band on its own worker, blocks
//! until every worker is done, and assembles the full buffer.

use vstd::prelude::*;
use crate::bands::Band;
use crate::bands::band_count;
use crate::bands::band_height;
use crate::bands::band_spec;
use crate::bands::band_top;
use crate::bands::lemma_band_structure;
use crate::bands::plan_bands;
use crate::bands::rows_per_band;
use crate::complex::ComplexPoint;
use crate::escape::ITERATION_LIMIT;
use crate::escape::escape_time_spec;
use crate::mapper::MAX_DIMENSION;
use crate::mapper::point_spec;
use crate::render::render;
use crate::render::rendered_grid;
use crate::render::shade_of;

verus! {

/// Failure of a parallel render: a worker did not run to completion, so no
/// part of the buffer may be trusted.
#[derive(Clone, Copy, PartialEq, Eq, Structural, Debug)]
pub enum RenderError {
    WorkerFailure,
}

/// The buffer one band's worker produces: the band rendered as a full grid
/// of its own, `width` columns by `band.height` rows, under the band's
/// derived viewport corners.
pub open spec fn band_pixels(band: Band, width: usize) -> Seq<u8> {
    rendered_grid((width, band.height), band.upper_left, band.lower_right)
}

/// The sample point of pixel `(col, row)` as the parallel render computes
/// it: through the band that owns `row`, with band-local coordinates and
/// the band's derived corners.
pub open spec fn band_sample(
    bounds: (usize, usize),
    upper_left: ComplexPoint,
    lower_right: ComplexPoint,
    workers: usize,
    col: int,
    row: int,
) -> ComplexPoint {
    let b = band_spec(
        bounds,
        upper_left,
        lower_right,
        workers,
        row / rows_per_band(bounds.1, workers),
    );
    point_spec(
        (bounds.0, b.height),
        (col as usize, (row - b.top) as usize),
        b.upper_left,
        b.lower_right,
    )
}

/// The buffer a parallel render produces: entry `row * width + column`
/// holds the shade of that pixel's band-derived sample point.
pub open spec fn parallel_grid(
    bounds: (usize, usize),
    upper_left: ComplexPoint,
    lower_right: ComplexPoint,
    workers: usize,
) -> Seq<u8> {
    Seq::new(
        (bounds.0 * bounds.1) as nat,
        |k: int|
            shade_of(
                escape_time_spec(
                    band_sample(
                        bounds,
                        upper_left,
                        lower_right,
                        workers,
                        k % (bounds.0 as int),
                        k / (bounds.0 as int),
                    ),
                    ITERATION_LIMIT,
                ),
            ),
    )
}

/// Renders one band into a buffer of its own.
pub fn render_band(band: &Band, width: usize) -> (out: Vec<u8>)
    requires
        1 <= width <= MAX_DIMENSION,
        1 <= band.height <= MAX_DIMENSION,
        width * band.height <= usize::MAX,
    ensures
        out@ == band_pixels(*band, width),
{
    let mut out: Vec<u8> = vec![0u8; width * band.height];
    render(&mut out, (width, band.height), band.upper_left, band.lower_right);
    out
}

/// Relies on `crossbeam::scope`, `Scope::spawn` and
/// `ScopedJoinHandle::join`: `scope` returns only once every spawned worker
/// has finished, `spawn` runs its closure — here one `render_band` call —
/// exactly once on its own thread, and `join` hands back that call's result
/// or reports the worker's panic. On any panic no result vector is
/// produced, so a partial render is never handed on.
#[verifier::external_body]
fn dispatch_bands(bands: &Vec<Band>, width: usize) -> (r: Option<Vec<Vec<u8>>>)
    requires
        1 <= width <= MAX_DIMENSION,
        forall|i: int|
            0 <= i < bands@.len() ==> 1 <= (#[trigger] bands@[i]).height <= MAX_DIMENSION
                && width * bands@[i].height <= usize::MAX,
    ensures
        r matches Some(outs) ==> outs@.len() == bands@.len() && (forall|i: int|
            0 <= i < bands@.len() ==> (#[trigger] outs@[i])@ == band_pixels(bands@[i], width)),
{
    let result = crossbeam::scope(|scope| {
        let handles: Vec<_> = bands.iter().map(
            |band| scope.spawn(move |_| render_band(band, width)),
        ).collect();
        let mut outs: Vec<Vec<u8>> = Vec::new();
        for handle in handles {
            outs.push(handle.join().ok()?);
        }
        Some(outs)
    });
    match result {
        Ok(outs) => outs,
        Err(_) => None,
    }
}

/// Renders the whole grid by dispatching one worker per band and joining
/// them all before the buffer is touched.
///
/// On success every byte of `pixels` holds its pixel's band-derived shade;
/// on worker failure the buffer is left exactly as it was, so a partial
/// render is never exposed.
#[verifier::loop_isolation(false)]
pub fn render_parallel(
    pixels: &mut Vec<u8>,
    bounds: (usize, usize),
    upper_left: ComplexPoint,
    lower_right: ComplexPoint,
    workers: usize,
) -> (r: Result<(), RenderError>)
    requires
        old(pixels).len() == bounds.0 * bounds.1,
        1 <= bounds.0 <= MAX_DIMENSION,
        1 <= bounds.1 <= MAX_DIMENSION,
        workers >= 1,
        bounds.1 + bounds.1 / workers + 1 <= usize::MAX,
    ensures
        r is Ok ==> final(pixels)@ == parallel_grid(bounds, upper_left, lower_right, workers),
        r is Err ==> final(pixels)@ == old(pixels)@,
{
    let width = bounds.0;
    let height = bounds.1;
    let bands = plan_bands(bounds, upper_left, lower_right, workers);
    proof {
        assert forall|i: int|
            0 <= i < bands@.len() implies 1 <= (#[trigger] bands@[i]).height <= MAX_DIMENSION
                && width * bands@[i].height <= usize::MAX by {
            lemma_band_structure(height, workers, i);
            assert(width * band_height(height, workers, i) <= width * height) by (nonlinear_arith)
                requires
                    band_height(height, workers, i) <= height,
                    width >= 1,
            ;
        }
    }
    let outs = match dispatch_bands(&bands, width) {
        None => {
            return Err(RenderError::WorkerFailure);
        },
        Some(outs) => outs,
    };
    let ghost grid = parallel_grid(bounds, upper_left, lower_right, workers);
    let mut acc: Vec<u8> = Vec::new();
    let band_total = bands.len();
    let mut i: usize = 0;
    proof {
        let rpb = rows_per_band(height, workers);
        vstd::arithmetic::div_mod::lemma_fundamental_div_mod(height + rpb - 1, rpb);
        assert(band_count(height, workers) >= 1) by (nonlinear_arith)
            requires
                height + rpb - 1 == rpb * band_count(height, workers) + (height + rpb - 1) % rpb,
                0 <= (height + rpb - 1) % rpb < rpb,
                height >= 1,
                rpb >= 1,
        ;
        assert(band_top(height, workers, 0) * width == 0) by (nonlinear_arith);
    }
    while i < band_total
        invariant
            i <= band_total,
            acc@.len() == (if i < band_total {
                band_top(height, workers, i as int) * width
            } else {
                (width * height) as int
            }),
            forall|k: int| 0 <= k < acc@.len() ==> acc@[k] == grid[k],
        decreases band_total - i,
    {
        let band_out = &outs[i];
        let ghost top = band_top(height, workers, i as int);
        let ghost bh = band_height(height, workers, i as int);
        let ghost rpb = rows_per_band(height, workers);
        proof {
            lemma_band_structure(height, workers, i as int);
            assert(band_out@ == band_pixels(bands@[i as int], width));
            assert(bands@[i as int].height == bh);
        }
        let mut j: usize = 0;
        while j < band_out.len()
            invariant
                j <= band_out@.len(),
                acc@.len() == band_top(height, workers, i as int) * width + j,
                forall|k: int| 0 <= k < acc@.len() ==> acc@[k] == grid[k],
            decreases band_out@.len() - j,
        {
            let value = band_out[j];
            proof {
                let ji = j as int;
                let wi = width as int;
                vstd::arithmetic::div_mod::lemma_fundamental_div_mod(ji, wi);
                let jrow = ji / wi;
                let jcol = ji % wi;
                assert(jrow < bh) by (nonlinear_arith)
                    requires
                        ji < wi * bh,
                        ji == wi * jrow + jcol,
                        0 <= jcol < wi,
                        wi >= 1,
                        bh >= 1,
                ;
                let kk = top * wi + ji;
                assert(kk == (top + jrow) * wi + jcol) by (nonlinear_arith)
                    requires
                        ji == wi * jrow + jcol,
                        kk == top * wi + ji,
                ;
                vstd::arithmetic::div_mod::lemma_fundamental_div_mod_converse(
                    kk,
                    wi,
                    top + jrow,
                    jcol,
                );
                vstd::arithmetic::div_mod::lemma_fundamental_div_mod_converse(
                    top + jrow,
                    rpb,
                    i as int,
                    jrow,
                );
                assert(kk < (width * height) as int) by (nonlinear_arith)
                    requires
                        kk == (top + jrow) * wi + jcol,
                        top + jrow < height,
                        0 <= jcol < wi,
                        wi == width,
                        0 <= top + jrow,
                ;
                assert(band_sample(
                    bounds,
                    upper_left,
                    lower_right,
                    workers,
                    jcol,
                    top + jrow,
                ) == point_spec(
                    (width, bands@[i as int].height),
                    (jcol as usize, jrow as usize),
                    bands@[i as int].upper_left,
                    bands@[i as int].lower_right,
                ));
                assert(grid[kk] == band_out@[ji]);
            }
            acc.push(value);
            j = j + 1;
        }
        proof {
            assert(acc@.len() == top * width + width * bh) by {
                assert(band_out@.len() == (width * bh) as nat);
            };
            if i + 1 < band_total {
                lemma_band_structure(height, workers, i as int);
                assert(bh == rpb);
                let ii = i as int;
                assert(band_top(height, workers, ii + 1) == (ii + 1) * rpb);
                assert(top == ii * rpb);
                assert(((ii + 1) * rpb) * width == (ii * rpb) * width + width * rpb)
                    by (nonlinear_arith);
            } else {
                lemma_band_structure(height, workers, i as int);
                assert(top + bh == height);
                assert(top * width + width * bh == width * height) by (nonlinear_arith)
                    requires
                        top + bh == height,
                ;
            }
        }
        i = i + 1;
    }
    proof {
        assert(acc@ =~= grid);
    }
    pixels.clear();
    pixels.append(&mut acc);
    Ok(())
}

/// The premise of scheduling determinism: every pixel's band-derived sample
/// point coincides with the point derived directly from the full viewport.
pub open spec fn band_sampling_agrees(
    bounds: (usize, usize),
    upper_left: ComplexPoint,
    lower_right: ComplexPoint,
    workers: usize,
) -> bool {
    forall|col: int, row: int|
        0 <= col < bounds.0 && 0 <= row < bounds.1 ==> #[trigger] band_sample(
            bounds,
            upper_left,
            lower_right,
            workers,
            col,
            row,
        ) == point_spec(bounds, (col as usize, row as usize), upper_left, lower_right)
}

/// Determinism of the band split: whenever the band-derived sample points
/// agree with the directly derived ones, the parallel render's buffer is
/// byte-identical to the sequential render's, for any worker count. A
/// band's corners are recomputed through double arithmetic, so that
/// agreement stands as a premise here rather than a proved fact; it can
/// fail where the recomputation rounds a corner differently.
pub proof fn lemma_parallel_matches_sequential(
    bounds: (usize, usize),
    upper_left: ComplexPoint,
    lower_right: ComplexPoint,
    workers: usize,
)
    requires
        workers >= 1,
        1 <= bounds.0,
        1 <= bounds.1,
        band_sampling_agrees(bounds, upper_left, lower_right, workers),
    ensures
        parallel_grid(bounds, upper_left, lower_right, workers) == rendered_grid(
            bounds,
            upper_left,
            lower_right,
        ),
{
    let pg = parallel_grid(bounds, upper_left, lower_right, workers);
    let sg = rendered_grid(bounds, upper_left, lower_right);
    assert forall|k: int| 0 <= k < pg.len() implies pg[k] == sg[k] by {
        let wi = bounds.0 as int;
        vstd::arithmetic::div_mod::lemma_fundamental_div_mod(k, wi);
        let col = k % wi;
        let row = k / wi;
        assert(0 <= row < bounds.1) by (nonlinear_arith)
            requires
                k == wi * row + col,
                0 <= col < wi,
                0 <= k < wi * bounds.1,
        ;
        assert(band_sample(bounds, upper_left, lower_right, workers, col, row) == point_spec(
            bounds,
            (col as usize, row as usize),
            upper_left,
            lower_right,
        ));
    }
    assert(pg =~= sg);
}

} // verus!

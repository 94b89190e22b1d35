//! The escape-time field of the Mandelbrot set.
//!
//! For a sample point `c` of the complex plane, the point `z` starts at the
//! origin and is repeatedly sent to `z*z + c`.  Before each step, `z` is
//! tested against the bailout radius 2; the escape count of `c` is the index
//! of the first test that `z` fails, or the iteration cap if it passes every
//! test up to and including the one at the cap.  All arithmetic is exact
//! fixed-point arithmetic on coordinates as defined in [`crate::fixed`].

use vstd::prelude::*;

use crate::fixed::COMP_LIMIT;
use crate::fixed::COORD_LIMIT;
use crate::fixed::SCALE;
use crate::fixed::rescale;
use crate::fixed::scale_down;

verus! {

/// Whether the point `(zr, zi)` lies strictly outside the bailout radius 2:
/// its squared magnitude, at product scale, exceeds `4 * SCALE * SCALE`.
pub open spec fn escaped(zr: int, zi: int) -> bool {
    zr * zr + zi * zi > 4 * (SCALE as int) * (SCALE as int)
}

/// Real part of `z*z + c`.
pub open spec fn step_re(zr: int, zi: int, cr: int) -> int {
    scale_down(zr * zr - zi * zi) + cr
}

/// Imaginary part of `z*z + c`.
pub open spec fn step_im(zr: int, zi: int, ci: int) -> int {
    scale_down(2 * zr * zi) + ci
}

/// Number of bailout tests that `z` passes, starting from `(zr, zi)` with
/// `n` further steps allowed: `0` if `z` has already escaped, and otherwise
/// one more than the count after the step `z*z + c`, up to `n`.
pub open spec fn escape_from(zr: int, zi: int, cr: int, ci: int, n: nat) -> nat
    decreases n,
{
    if escaped(zr, zi) || n == 0 {
        0
    } else {
        1 + escape_from(step_re(zr, zi, cr), step_im(zr, zi, ci), cr, ci, (n - 1) as nat)
    }
}

/// The escape count of the sample point `(cr, ci)` under iteration cap `cap`:
/// the index of the first bailout test failed by the orbit of the origin, or
/// `cap` if no test up to index `cap` fails.
pub open spec fn escape_time(cr: int, ci: int, cap: nat) -> nat {
    escape_from(0, 0, cr, ci, cap)
}

/// An escape count never exceeds the number of steps allowed.
pub proof fn lemma_escape_from_le(zr: int, zi: int, cr: int, ci: int, n: nat)
    ensures
        escape_from(zr, zi, cr, ci, n) <= n,
    decreases n,
{
    if !escaped(zr, zi) && n > 0 {
        lemma_escape_from_le(step_re(zr, zi, cr), step_im(zr, zi, ci), cr, ci, (n - 1) as nat);
    }
}

/// The escape count of a sample point under cap `cap` lies in `[0, cap]`.
pub proof fn lemma_escape_time_le(cr: int, ci: int, cap: nat)
    ensures
        escape_time(cr, ci, cap) <= cap,
{
    lemma_escape_from_le(0, 0, cr, ci, cap);
}

/// The origin is a fixed point of the map and inside the bailout radius, so
/// it passes every test: its escape count equals the cap, for any cap.
pub proof fn lemma_origin_never_escapes(cap: nat)
    ensures
        escape_time(0, 0, cap) == cap,
{
    lemma_origin_escape_from(cap);
}

proof fn lemma_origin_escape_from(n: nat)
    ensures
        escape_from(0, 0, 0, 0, n) == n,
    decreases n,
{
    if n > 0 {
        lemma_origin_escape_from((n - 1) as nat);
    }
}

/// A sample point that itself lies outside the bailout radius fails the
/// second test: the origin passes the test at index 0, the first step lands
/// on the sample point, and the test at index 1 fails.
pub proof fn lemma_outside_point_escapes_at_one(cr: int, ci: int, cap: nat)
    requires
        cap >= 1,
        escaped(cr, ci),
    ensures
        escape_time(cr, ci, cap) == 1,
{
    assert(step_re(0, 0, cr) == cr);
    assert(step_im(0, 0, ci) == ci);
    assert(escape_from(cr, ci, cr, ci, (cap - 1) as nat) == 0);
    assert(escape_from(0, 0, cr, ci, cap) == 1 + escape_from(cr, ci, cr, ci, (cap - 1) as nat));
}

/// The escape count of one sample point, computed by the escape-time loop.
///
/// Inputs whose magnitude exceeds [`COORD_LIMIT`] are rejected by
/// precondition: beyond it the fixed-point components could overflow `i64`.
pub fn mandelbrot_at_point(cx: i64, cy: i64, max_iters: usize) -> (r: usize)
    requires
        -COORD_LIMIT <= cx <= COORD_LIMIT,
        -COORD_LIMIT <= cy <= COORD_LIMIT,
    ensures
        r as nat == escape_time(cx as int, cy as int, max_iters as nat),
        r <= max_iters,
{
    proof {
        lemma_escape_time_le(cx as int, cy as int, max_iters as nat);
    }
    let mut zr: i64 = 0;
    let mut zi: i64 = 0;
    let mut i: usize = 0;
    loop
        invariant
            i <= max_iters,
            -COORD_LIMIT <= cx <= COORD_LIMIT,
            -COORD_LIMIT <= cy <= COORD_LIMIT,
            -COMP_LIMIT <= zr <= COMP_LIMIT,
            -COMP_LIMIT <= zi <= COMP_LIMIT,
            escape_time(cx as int, cy as int, max_iters as nat) == i + escape_from(
                zr as int,
                zi as int,
                cx as int,
                cy as int,
                (max_iters - i) as nat,
            ),
        decreases max_iters - i,
    {
        proof {
            lemma_escape_from_le(
                zr as int,
                zi as int,
                cx as int,
                cy as int,
                (max_iters - i) as nat,
            );
            // The nonlinear queries see no ambient context, so the bounds
            // are spelled as literals: 0x4000_0000_0004_0000 is COMP_LIMIT,
            // and 0x2000_..._0000 (two to the 125th) exceeds its square.
            assert(4 * (SCALE as int) * (SCALE as int) == 0x4_0000_0000) by (nonlinear_arith)
                requires
                    SCALE == 65536i64,
            ;
            assert(0 <= (zr as int) * (zr as int)
                <= 0x2000_0000_0000_0000_0000_0000_0000_0000) by (nonlinear_arith)
                requires
                    -0x4000_0000_0004_0000 <= zr <= 0x4000_0000_0004_0000,
            ;
            assert(0 <= (zi as int) * (zi as int)
                <= 0x2000_0000_0000_0000_0000_0000_0000_0000) by (nonlinear_arith)
                requires
                    -0x4000_0000_0004_0000 <= zi <= 0x4000_0000_0004_0000,
            ;
        }
        let rr: i128 = (zr as i128) * (zr as i128);
        let ii: i128 = (zi as i128) * (zi as i128);
        if rr + ii > 4 * (SCALE as i128) * (SCALE as i128) {
            return i;
        }
        if i == max_iters {
            return max_iters;
        }
        proof {
            assert(2 * (zr as int) * (zi as int) <= (zr as int) * (zr as int) + (zi as int) * (
            zi as int) && -((zr as int) * (zr as int) + (zi as int) * (zi as int)) <= 2 * (
            zr as int) * (zi as int)) by (nonlinear_arith);
        }
        let cross: i128 = 2 * (zr as i128) * (zi as i128);
        let new_zr: i64 = rescale(rr - ii) + cx;
        let new_zi: i64 = rescale(cross) + cy;
        zr = new_zr;
        zi = new_zi;
        i = i + 1;
    }
}

/// Fixed-point coordinate sampled for grid index `k` of an axis with `n`
/// cells spanning `[lo, hi)`: `lo` plus `k/n` of the span, the division
/// truncated toward zero (it is non-negative).
pub open spec fn sample_spec(lo: int, hi: int, n: int, k: int) -> int {
    lo + ((hi - lo) * k) / n
}

/// Map a grid index to its fixed-point sample coordinate on one axis.
pub fn sample_coord(lo: i64, hi: i64, n: usize, k: usize) -> (c: i64)
    requires
        lo < hi,
        -COORD_LIMIT <= lo,
        hi <= COORD_LIMIT,
        0 < n,
        k < n,
    ensures
        c as int == sample_spec(lo as int, hi as int, n as int, k as int),
        lo <= c < hi,
{
    let span: u128 = ((hi as i128) - (lo as i128)) as u128;
    let ku: u128 = k as u128;
    proof {
        assert(span * ku < 0x8000_0000_0000_0000_0000_0000_0000_0000) by (nonlinear_arith)
            requires
                span <= 0x8000_0000_0000_0000u128,
                ku < 0x1_0000_0000_0000_0000u128,
        ;
        assert(span * ku < (n as int) * (span as int)) by (nonlinear_arith)
            requires
                1 <= span,
                0 <= ku < n,
        ;
        assert(0 <= span * ku) by (nonlinear_arith)
            requires
                0 <= span,
                0 <= ku,
        ;
    }
    let num: u128 = span * ku;
    let q: u128 = num / (n as u128);
    proof {
        vstd::arithmetic::div_mod::lemma_multiply_divide_lt(num as int, n as int, span as int);
    }
    ((lo as i128) + (q as i128)) as i64
}

/// The escape count that belongs at column `ix`, row `iy` of the field for
/// the given cap, viewport and grid: the escape time of the sample point of
/// that cell.  The horizontal axis is divided by `width`, the vertical axis
/// by `height`.
pub open spec fn cell_value(
    cap: nat,
    x_min: int,
    x_max: int,
    y_min: int,
    y_max: int,
    width: int,
    height: int,
    ix: int,
    iy: int,
) -> nat {
    escape_time(
        sample_spec(x_min, x_max, width, ix),
        sample_spec(y_min, y_max, height, iy),
        cap,
    )
}

/// The field `f` is exactly the escape-time field of the given cap, viewport
/// and grid: `height` rows of `width` cells, each holding the escape count of
/// its own sample point.
pub open spec fn field_ok(
    f: Seq<Vec<usize>>,
    cap: nat,
    x_min: int,
    x_max: int,
    y_min: int,
    y_max: int,
    width: int,
    height: int,
) -> bool {
    &&& f.len() == height
    &&& forall|iy: int| 0 <= iy < height ==> f[iy]@.len() == width
    &&& forall|iy: int, ix: int|
        0 <= iy < height && 0 <= ix < width ==> f[iy]@[ix] as nat == cell_value(
            cap,
            x_min,
            x_max,
            y_min,
            y_max,
            width,
            height,
            ix,
            iy,
        )
}

/// The escape-time field of a viewport of the complex plane, sampled on a
/// `width` by `height` pixel grid under iteration cap `max_iters`.
///
/// The result holds one row per image row, in image order, and each row one
/// escape count per column; every cell depends only on its own coordinates.
/// Invalid inputs (a zero dimension, a zero cap, an inverted or oversized
/// viewport) are rejected by precondition.
pub fn calculate_mandelbrot(
    max_iters: usize,
    x_min: i64,
    x_max: i64,
    y_min: i64,
    y_max: i64,
    width: usize,
    height: usize,
) -> (r: Vec<Vec<usize>>)
    requires
        1 <= max_iters,
        x_min < x_max,
        y_min < y_max,
        -COORD_LIMIT <= x_min,
        x_max <= COORD_LIMIT,
        -COORD_LIMIT <= y_min,
        y_max <= COORD_LIMIT,
        1 <= width,
        1 <= height,
    ensures
        field_ok(
            r@,
            max_iters as nat,
            x_min as int,
            x_max as int,
            y_min as int,
            y_max as int,
            width as int,
            height as int,
        ),
        forall|iy: int, ix: int|
            0 <= iy < height && 0 <= ix < width ==> r@[iy]@[ix] <= max_iters,
{
    let mut all_rows: Vec<Vec<usize>> = Vec::new();
    let mut img_y: usize = 0;
    while img_y < height
        invariant
            img_y <= height,
            all_rows@.len() == img_y,
            1 <= max_iters,
            x_min < x_max,
            y_min < y_max,
            -COORD_LIMIT <= x_min,
            x_max <= COORD_LIMIT,
            -COORD_LIMIT <= y_min,
            y_max <= COORD_LIMIT,
            1 <= width,
            1 <= height,
            forall|iy: int| 0 <= iy < img_y ==> all_rows@[iy]@.len() == width,
            forall|iy: int, ix: int|
                0 <= iy < img_y && 0 <= ix < width ==> all_rows@[iy]@[ix] as nat == cell_value(
                    max_iters as nat,
                    x_min as int,
                    x_max as int,
                    y_min as int,
                    y_max as int,
                    width as int,
                    height as int,
                    ix,
                    iy,
                ),
            forall|iy: int, ix: int|
                0 <= iy < img_y && 0 <= ix < width ==> all_rows@[iy]@[ix] <= max_iters,
        decreases height - img_y,
    {
        let cy = sample_coord(y_min, y_max, height, img_y);
        let mut row: Vec<usize> = Vec::new();
        let mut img_x: usize = 0;
        while img_x < width
            invariant
                img_x <= width,
                row@.len() == img_x,
                img_y < height,
                1 <= max_iters,
                x_min < x_max,
                y_min < y_max,
                -COORD_LIMIT <= x_min,
                x_max <= COORD_LIMIT,
                -COORD_LIMIT <= y_min,
                y_max <= COORD_LIMIT,
                1 <= width,
                1 <= height,
                cy as int == sample_spec(y_min as int, y_max as int, height as int, img_y as int),
                y_min <= cy < y_max,
                forall|ix: int|
                    0 <= ix < img_x ==> row@[ix] as nat == cell_value(
                        max_iters as nat,
                        x_min as int,
                        x_max as int,
                        y_min as int,
                        y_max as int,
                        width as int,
                        height as int,
                        ix,
                        img_y as int,
                    ),
                forall|ix: int| 0 <= ix < img_x ==> row@[ix] <= max_iters,
            decreases width - img_x,
        {
            let cx = sample_coord(x_min, x_max, width, img_x);
            let escaped_at = mandelbrot_at_point(cx, cy, max_iters);
            row.push(escaped_at);
            img_x = img_x + 1;
        }
        all_rows.push(row);
        img_y = img_y + 1;
    }
    all_rows
}

/// The field is a function of its inputs alone: any two fields that satisfy
/// [`field_ok`] for the same cap, viewport and grid agree cell for cell.
pub proof fn lemma_field_deterministic(
    a: Seq<Vec<usize>>,
    b: Seq<Vec<usize>>,
    cap: nat,
    x_min: int,
    x_max: int,
    y_min: int,
    y_max: int,
    width: int,
    height: int,
)
    requires
        field_ok(a, cap, x_min, x_max, y_min, y_max, width, height),
        field_ok(b, cap, x_min, x_max, y_min, y_max, width, height),
    ensures
        a.len() == b.len(),
        forall|iy: int| 0 <= iy < a.len() ==> a[iy]@ =~= b[iy]@,
{
    assert forall|iy: int| 0 <= iy < a.len() implies a[iy]@ =~= b[iy]@ by {
        assert(a[iy]@.len() == width);
        assert(b[iy]@.len() == width);
        assert forall|ix: int| 0 <= ix < width implies a[iy]@[ix] == b[iy]@[ix] by {
            assert(a[iy]@[ix] as nat == cell_value(
                cap,
                x_min,
                x_max,
                y_min,
                y_max,
                width,
                height,
                ix,
                iy,
            ));
            assert(b[iy]@[ix] as nat == cell_value(
                cap,
                x_min,
                x_max,
                y_min,
                y_max,
                width,
                height,
                ix,
                iy,
            ));
        }
    }
}

} // verus!

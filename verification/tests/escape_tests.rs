use mandelbrot::calculate_mandelbrot;
use mandelbrot::mandelbrot_at_point;
use mandelbrot::sample_coord;
use mandelbrot::SCALE;

#[test]
fn origin_never_escapes() {
    assert_eq!(mandelbrot_at_point(0, 0, 1), 1);
    assert_eq!(mandelbrot_at_point(0, 0, 10), 10);
    assert_eq!(mandelbrot_at_point(0, 0, 1000), 1000);
}

#[test]
fn far_point_escapes_at_one() {
    // c = 5 + 5i lies far outside the bailout radius: the origin passes the
    // first test, the first step lands on c, and the test at index 1 fails.
    assert_eq!(mandelbrot_at_point(5 * SCALE, 5 * SCALE, 100), 1);
    assert_eq!(mandelbrot_at_point(5 * SCALE, 5 * SCALE, 1), 1);
}

#[test]
fn boundary_point_never_escapes() {
    // c = -2 + 0i stays on the bailout circle forever: 0, -2, 2, 2, ...
    // and the magnitude test is strict, so the cap is reported.
    assert_eq!(mandelbrot_at_point(-2 * SCALE, 0, 50), 50);
}

#[test]
fn known_orbit_escapes_at_three() {
    // c = 1: the orbit is 0, 1, 2, 5; the tests at indices 0..2 pass
    // (|2| is not > 2) and the test at index 3 fails.
    assert_eq!(mandelbrot_at_point(SCALE, 0, 10), 3);
}

#[test]
fn point_computation_is_deterministic() {
    let a = mandelbrot_at_point(-3 * SCALE / 4, SCALE / 10, 500);
    let b = mandelbrot_at_point(-3 * SCALE / 4, SCALE / 10, 500);
    assert_eq!(a, b);
}

#[test]
fn sample_coord_exact_values() {
    // First sample of an axis is its lower bound.
    assert_eq!(sample_coord(-2 * SCALE, SCALE, 4, 0), -2 * SCALE);
    // Halfway across [-2, 2) with 4 cells lands on 0.
    assert_eq!(sample_coord(-2 * SCALE, 2 * SCALE, 4, 2), 0);
    // lo + (hi - lo) * k / n, truncated: -2 + 3 * 3 / 4 in real units.
    assert_eq!(
        sample_coord(-2 * SCALE, SCALE, 4, 3),
        -2 * SCALE + (3 * SCALE as i128 * 3 / 4) as i64
    );
}

#[test]
fn field_has_requested_shape_and_range() {
    let field = calculate_mandelbrot(30, -2 * SCALE, SCALE, -SCALE, SCALE, 7, 5);
    assert_eq!(field.len(), 5);
    for row in &field {
        assert_eq!(row.len(), 7);
        for &v in row {
            assert!(v <= 30);
        }
    }
}

#[test]
fn end_to_end_four_by_four() {
    let field = calculate_mandelbrot(1000, -2 * SCALE, SCALE, -SCALE, SCALE, 4, 4);
    assert_eq!(field.len(), 4);
    for row in &field {
        assert_eq!(row.len(), 4);
        for &v in row {
            assert!(v <= 1000);
        }
    }
    let again = calculate_mandelbrot(1000, -2 * SCALE, SCALE, -SCALE, SCALE, 4, 4);
    assert_eq!(field, again);
}

#[test]
fn cells_are_independent() {
    // Every cell equals the point computation run on its own sample
    // coordinates alone: no state leaks from one cell to the next.
    let field = calculate_mandelbrot(1000, -2 * SCALE, SCALE, -SCALE, SCALE, 4, 4);
    for iy in 0..4 {
        for ix in 0..4 {
            let cx = sample_coord(-2 * SCALE, SCALE, 4, ix);
            let cy = sample_coord(-SCALE, SCALE, 4, iy);
            assert_eq!(field[iy][ix], mandelbrot_at_point(cx, cy, 1000));
        }
    }
}

#[test]
fn interior_point_reports_cap() {
    // c = -1 cycles between -1 and 0: it is in the set for any cap.
    assert_eq!(mandelbrot_at_point(-SCALE, 0, 25), 25);
}

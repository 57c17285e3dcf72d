use mandelbrot::fixed::SCALE;
use mandelbrot::mandelbrot::{evaluate, Mandelbrot, COORD_LIMIT, THRESHOLD_LIMIT};

#[test]
fn outside_radius_diverges_at_zero() {
    // |c|^2 = 4 for c = 2 + 0i, so any threshold below 4 is exceeded by
    // the very first step.
    assert_eq!(evaluate(2 * SCALE, 0, 100, 3 * SCALE), Some(0));
    assert_eq!(evaluate(2 * SCALE, 0, 1, 4 * SCALE - 1), Some(0));
    assert_eq!(evaluate(0, -2 * SCALE, 100, 3 * SCALE), Some(0));
}

#[test]
fn known_escape_index() {
    // c = 2: z_1 = 2 (|z|^2 = 4 <= 16), z_2 = 6 (|z|^2 = 36 > 16).
    assert_eq!(evaluate(2 * SCALE, 0, 100, 16 * SCALE), Some(1));
}

#[test]
fn origin_never_diverges() {
    assert_eq!(evaluate(0, 0, 1, 16 * SCALE), None);
    assert_eq!(evaluate(0, 0, 100, 16 * SCALE), None);
    assert_eq!(evaluate(0, 0, 1000, 1), None);
}

#[test]
fn periodic_point_stays_in_set() {
    // c = -1 + 0i cycles 0 -> -1 -> 0 exactly, also in fixed point.
    assert_eq!(evaluate(-SCALE, 0, 1000, 16 * SCALE), None);
}

#[test]
fn evaluate_is_deterministic() {
    let c_re = 1288490188; // about 0.3
    let c_im = -2147483648; // -0.5
    let first = evaluate(c_re, c_im, 500, 16 * SCALE);
    let second = evaluate(c_re, c_im, 500, 16 * SCALE);
    assert_eq!(first, second);
}

#[test]
fn zero_budget_returns_none() {
    assert_eq!(evaluate(0, 0, 0, 16 * SCALE), None);
    assert_eq!(evaluate(COORD_LIMIT, -COORD_LIMIT, 0, THRESHOLD_LIMIT), None);
    assert_eq!(evaluate(123456789, -987654321, 0, -5), None);
    assert_eq!(evaluate(2 * SCALE, 0, 0, -THRESHOLD_LIMIT), None);
}

#[test]
fn non_positive_threshold_diverges_immediately() {
    // A non-positive threshold is a degenerate but accepted setting: the
    // first step exceeds it for any c, even the origin.
    assert_eq!(evaluate(0, 0, 10, -SCALE), Some(0));
    assert_eq!(evaluate(SCALE, 0, 10, -1), Some(0));
    assert_eq!(evaluate(SCALE / 2, SCALE / 2, 10, 0), Some(0));
}

#[test]
fn pixel_evaluation_center_of_default_framing() {
    let m = Mandelbrot::new(300, 300, 100, 16 * SCALE);
    // Pixel (225, 150) maps to exactly (0, 0) in the default framing.
    assert_eq!(m.calculage_diverge_number(225, 150), None);
}

#[test]
fn pixel_evaluation_matches_plane_evaluation() {
    let m = Mandelbrot::new(300, 300, 100, 16 * SCALE);
    // Pixel (0, 0) maps to exactly (-1.5, -1.0) in the default framing.
    let direct = evaluate(-6442450944, -SCALE, 100, 16 * SCALE);
    assert_eq!(m.calculage_diverge_number(0, 0), direct);
    assert!(direct.is_some());
}

#[test]
fn mandelbrot_new_keeps_fields() {
    let m = Mandelbrot::new(450, 300, 200, 16 * SCALE);
    assert_eq!(m.width, 450);
    assert_eq!(m.height, 300);
    assert_eq!(m.diverge_iterations, 200);
    assert_eq!(m.diverge_threshold, 16 * SCALE);
}

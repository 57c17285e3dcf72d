use mandelbrot::config::{DEFAULT_SCROLL_SPEED, DEFAULT_ZOOM_SPEED};
use mandelbrot::fixed::SCALE;
use mandelbrot::viewport::{Direction, Viewport, OFFSET_LIMIT, SPEED_LIMIT, ZOOM_MAX, ZOOM_MIN};

#[test]
fn default_framing_corners() {
    let v = Viewport::new(SCALE);
    // Pixel (0, 0) of a 300x300 view maps exactly to (-1.5, -1.0).
    let p = v.to_plane(0, 0, 300, 300);
    assert_eq!(p.0, -3 * SCALE / 2);
    assert_eq!(p.1, -SCALE);
    // Pixel (299, 299) maps to about (0.5, 1.0), one pixel short of the
    // far corner.
    let q = v.to_plane(299, 299, 300, 300);
    assert!((q.0 - SCALE / 2).abs() <= SCALE / 100);
    assert!((q.1 - SCALE).abs() <= SCALE / 100);
}

#[test]
fn to_plane_applies_zoom_and_offset() {
    let mut v = Viewport::new(2 * SCALE);
    v.offset_x = SCALE;
    // Pixel (150, 75) of a 300x300 view: ratios 1.0 and 0.5, so the
    // plane point is (1.0 * 2 - 1.5 + 1.0, 0.5 * 2 - 1.0 + 0) = (1.5, 0).
    let p = v.to_plane(150, 75, 300, 300);
    assert_eq!(p.0, 3 * SCALE / 2);
    assert_eq!(p.1, 0);
}

#[test]
fn pan_moves_the_chosen_axis() {
    // At zoom 1 with the default scroll speed, one 2 ms tick moves the
    // offset by exactly 10 * 1 * 2 = 20 plane units.
    let mut v = Viewport::new(SCALE);
    v.pan(Direction::Right, 2, DEFAULT_SCROLL_SPEED);
    assert_eq!(v.offset_x, 20 * SCALE);
    assert_eq!(v.offset_y, 0);
    v.pan(Direction::Left, 2, DEFAULT_SCROLL_SPEED);
    assert_eq!(v.offset_x, 0);
    v.pan(Direction::Up, 3, DEFAULT_SCROLL_SPEED);
    assert_eq!(v.offset_y, -30 * SCALE);
    v.pan(Direction::Down, 6, DEFAULT_SCROLL_SPEED);
    assert_eq!(v.offset_y, 30 * SCALE);
    assert_eq!(v.zoom, SCALE);
}

#[test]
fn pan_saturates_at_the_offset_range() {
    let mut v = Viewport::new(ZOOM_MAX);
    v.pan(Direction::Right, 1000, SPEED_LIMIT);
    assert_eq!(v.offset_x, OFFSET_LIMIT);
    v.pan(Direction::Left, 1000, SPEED_LIMIT);
    v.pan(Direction::Left, 1000, SPEED_LIMIT);
    assert_eq!(v.offset_x, -OFFSET_LIMIT);
}

#[test]
fn zoom_roundtrip_restores_zoom() {
    // One zoom-in tick then one zoom-out tick with the same speed factor
    // restores the zoom within the rounding of the two ticks.
    let start = 10737418240; // 2.5
    let mut v = Viewport::new(start);
    v.zoom_in(16, DEFAULT_ZOOM_SPEED);
    assert!(v.zoom < start);
    v.zoom_out(16, DEFAULT_ZOOM_SPEED);
    assert!((v.zoom - start).abs() <= 3);
}

#[test]
fn zoom_in_shrinks_toward_center() {
    let mut v = Viewport::new(2 * SCALE);
    v.zoom_in(16, DEFAULT_ZOOM_SPEED);
    // 2.0 * 0.95 exactly, in raw units.
    assert_eq!(v.zoom, 2 * DEFAULT_ZOOM_SPEED);
    // Both offsets move forward by ((1 - 0.95) / 2) * zoom, with the
    // zoom already updated: about 0.0475 in raw units.
    assert_eq!(v.offset_x, 204010945);
    assert_eq!(v.offset_x, v.offset_y);
}

#[test]
fn zoom_out_backs_away_from_center() {
    let mut v = Viewport::new(2 * SCALE);
    v.zoom_out(16, DEFAULT_ZOOM_SPEED);
    assert!(v.zoom > 2 * SCALE);
    assert!(v.offset_x < 0);
    assert_eq!(v.offset_x, v.offset_y);
}

#[test]
fn zoom_in_stops_at_the_floor() {
    let mut v = Viewport::new(ZOOM_MIN);
    v.zoom_in(16, DEFAULT_ZOOM_SPEED);
    assert_eq!(v.zoom, ZOOM_MIN);
}

#[test]
fn zoom_out_stops_at_the_cap() {
    let mut v = Viewport::new(ZOOM_MAX);
    v.zoom_out(16, DEFAULT_ZOOM_SPEED);
    assert_eq!(v.zoom, ZOOM_MAX);
}

#[test]
fn new_viewport_is_centered() {
    let v = Viewport::new(2 * SCALE);
    assert_eq!(v.zoom, 2 * SCALE);
    assert_eq!(v.offset_x, 0);
    assert_eq!(v.offset_y, 0);
}

use mandelbrot::config::{
    Config, ConfigError, DEFAULT_DIVERGE_ITERATIONS, DEFAULT_DIVERGE_THRESHOLD,
    DEFAULT_SCROLL_SPEED, DEFAULT_STARTING_ZOOM, DEFAULT_VIEWPORT_HEIGHT, DEFAULT_VIEWPORT_WIDTH,
    DEFAULT_ZOOM_SPEED,
};
use mandelbrot::fixed::SCALE;
use mandelbrot::mandelbrot::THRESHOLD_LIMIT;
use mandelbrot::viewport::{SPEED_LIMIT, ZOOM_MAX};

fn default_config() -> Result<Config, ConfigError> {
    Config::new(
        DEFAULT_DIVERGE_ITERATIONS,
        DEFAULT_DIVERGE_THRESHOLD,
        DEFAULT_SCROLL_SPEED,
        DEFAULT_STARTING_ZOOM,
        DEFAULT_VIEWPORT_HEIGHT,
        DEFAULT_VIEWPORT_WIDTH,
        DEFAULT_ZOOM_SPEED,
    )
}

#[test]
fn default_configuration_is_accepted() {
    let c = default_config().unwrap();
    assert_eq!(c.diverge_iterations(), 200);
    assert_eq!(c.diverge_threshold(), 16 * SCALE);
    assert_eq!(c.scroll_speed(), 10 * SCALE);
    assert_eq!(c.starting_zoom(), 2 * SCALE);
    assert_eq!(c.viewport_height(), 450);
    assert_eq!(c.viewport_width(), 450);
    assert_eq!(c.zoom_speed(), DEFAULT_ZOOM_SPEED);
}

#[test]
fn empty_viewport_is_rejected() {
    let r = Config::new(200, 16 * SCALE, 0, SCALE, 450, 0, DEFAULT_ZOOM_SPEED);
    assert_eq!(r.unwrap_err(), ConfigError::InvalidViewportWidth);
    let r = Config::new(200, 16 * SCALE, 0, SCALE, 0, 450, DEFAULT_ZOOM_SPEED);
    assert_eq!(r.unwrap_err(), ConfigError::InvalidViewportHeight);
    // The width is checked first.
    let r = Config::new(0, -1, -1, 0, 0, 0, 0);
    assert_eq!(r.unwrap_err(), ConfigError::InvalidViewportWidth);
}

#[test]
fn zero_iteration_budget_is_rejected() {
    let r = Config::new(0, 16 * SCALE, 0, SCALE, 450, 450, DEFAULT_ZOOM_SPEED);
    assert_eq!(r.unwrap_err(), ConfigError::InvalidIterations);
}

#[test]
fn unusable_threshold_is_rejected() {
    let r = Config::new(200, 0, 0, SCALE, 450, 450, DEFAULT_ZOOM_SPEED);
    assert_eq!(r.unwrap_err(), ConfigError::InvalidThreshold);
    let r = Config::new(200, -16 * SCALE, 0, SCALE, 450, 450, DEFAULT_ZOOM_SPEED);
    assert_eq!(r.unwrap_err(), ConfigError::InvalidThreshold);
    let r = Config::new(200, THRESHOLD_LIMIT + 1, 0, SCALE, 450, 450, DEFAULT_ZOOM_SPEED);
    assert_eq!(r.unwrap_err(), ConfigError::InvalidThreshold);
}

#[test]
fn unusable_speeds_and_zoom_are_rejected() {
    let r = Config::new(200, 16 * SCALE, -1, SCALE, 450, 450, DEFAULT_ZOOM_SPEED);
    assert_eq!(r.unwrap_err(), ConfigError::InvalidScrollSpeed);
    let r = Config::new(200, 16 * SCALE, SPEED_LIMIT + 1, SCALE, 450, 450, DEFAULT_ZOOM_SPEED);
    assert_eq!(r.unwrap_err(), ConfigError::InvalidScrollSpeed);
    let r = Config::new(200, 16 * SCALE, 0, 0, 450, 450, DEFAULT_ZOOM_SPEED);
    assert_eq!(r.unwrap_err(), ConfigError::InvalidStartingZoom);
    let r = Config::new(200, 16 * SCALE, 0, ZOOM_MAX + 1, 450, 450, DEFAULT_ZOOM_SPEED);
    assert_eq!(r.unwrap_err(), ConfigError::InvalidStartingZoom);
    let r = Config::new(200, 16 * SCALE, 0, SCALE, 450, 450, 0);
    assert_eq!(r.unwrap_err(), ConfigError::InvalidZoomSpeed);
    let r = Config::new(200, 16 * SCALE, 0, SCALE, 450, 450, SCALE);
    assert_eq!(r.unwrap_err(), ConfigError::InvalidZoomSpeed);
}

//! Configuration: the named numeric parameters of the visualizer.
//!
//! A `Config` is built once at startup and never mutated. Construction
//! validates every parameter and rejects an unusable one with an error
//! naming it, so that no per-pixel computation can run against an empty
//! viewport, a zero iteration budget, a non-positive threshold or a
//! value outside the fixed-point ranges the other components accept.

use vstd::prelude::*;
use crate::fixed::SCALE;
use crate::mandelbrot::THRESHOLD_LIMIT;
use crate::viewport::{SPEED_LIMIT, ZOOM_MAX, ZOOM_MIN};

verus! {

/// Default iteration budget.
pub const DEFAULT_DIVERGE_ITERATIONS: u32 = 200;

/// Default divergence threshold: 16.0 in raw units.
pub const DEFAULT_DIVERGE_THRESHOLD: i64 = 0x10_0000_0000;

/// Default scroll speed: 10.0 plane units per millisecond in raw units.
pub const DEFAULT_SCROLL_SPEED: i64 = 0xA_0000_0000;

/// Default starting zoom: 2.0 in raw units.
pub const DEFAULT_STARTING_ZOOM: i64 = 0x2_0000_0000;

/// Default viewport height in pixels.
pub const DEFAULT_VIEWPORT_HEIGHT: u32 = 450;

/// Default viewport width in pixels.
pub const DEFAULT_VIEWPORT_WIDTH: u32 = 450;

/// Default zoom speed factor: 0.95 in raw units, rounded down. A factor
/// below one makes a zoom-in tick shrink the represented range.
pub const DEFAULT_ZOOM_SPEED: i64 = 4080218931;

/// Why a configuration was rejected; each variant names the parameter
/// at fault.
#[derive(Clone, Copy, Debug, PartialEq, Eq, Structural)]
pub enum ConfigError {
    InvalidViewportWidth,
    InvalidViewportHeight,
    InvalidIterations,
    InvalidThreshold,
    InvalidScrollSpeed,
    InvalidStartingZoom,
    InvalidZoomSpeed,
}

/// A usable parameter set: a non-empty viewport, a non-zero iteration
/// budget, a positive threshold, and speeds and zoom within the
/// fixed-point ranges the navigation model accepts.
pub open spec fn valid_config_params(
    diverge_iterations: u32,
    diverge_threshold: i64,
    scroll_speed: i64,
    starting_zoom: i64,
    viewport_height: u32,
    viewport_width: u32,
    zoom_speed: i64,
) -> bool {
    &&& 0 < viewport_width
    &&& 0 < viewport_height
    &&& 0 < diverge_iterations
    &&& 0 < diverge_threshold <= THRESHOLD_LIMIT
    &&& 0 <= scroll_speed <= SPEED_LIMIT
    &&& ZOOM_MIN <= starting_zoom <= ZOOM_MAX
    &&& 0 < zoom_speed < SCALE
}

/// The first fault found in a parameter set, in the order the
/// constructor checks them, or `None` for a usable set.
pub open spec fn first_config_error(
    diverge_iterations: u32,
    diverge_threshold: i64,
    scroll_speed: i64,
    starting_zoom: i64,
    viewport_height: u32,
    viewport_width: u32,
    zoom_speed: i64,
) -> Option<ConfigError> {
    if viewport_width == 0 {
        Some(ConfigError::InvalidViewportWidth)
    } else if viewport_height == 0 {
        Some(ConfigError::InvalidViewportHeight)
    } else if diverge_iterations == 0 {
        Some(ConfigError::InvalidIterations)
    } else if !(0 < diverge_threshold <= THRESHOLD_LIMIT) {
        Some(ConfigError::InvalidThreshold)
    } else if !(0 <= scroll_speed <= SPEED_LIMIT) {
        Some(ConfigError::InvalidScrollSpeed)
    } else if !(ZOOM_MIN <= starting_zoom <= ZOOM_MAX) {
        Some(ConfigError::InvalidStartingZoom)
    } else if !(0 < zoom_speed < SCALE) {
        Some(ConfigError::InvalidZoomSpeed)
    } else {
        None
    }
}

/// The immutable parameter set of one run. Thresholds, speeds and zooms
/// are Q31.32 fixed-point values.
#[derive(Clone, Copy, Debug, PartialEq, Eq, Structural)]
pub struct Config {
    pub diverge_iterations: u32,
    pub diverge_threshold: i64,
    pub scroll_speed: i64,
    pub starting_zoom: i64,
    pub viewport_height: u32,
    pub viewport_width: u32,
    pub zoom_speed: i64,
}

impl Config {
    /// What construction guarantees of every `Config` it hands out.
    pub open spec fn wf(self) -> bool {
        valid_config_params(
            self.diverge_iterations,
            self.diverge_threshold,
            self.scroll_speed,
            self.starting_zoom,
            self.viewport_height,
            self.viewport_width,
            self.zoom_speed,
        )
    }

    /// Validates a parameter set: a usable set is returned as a
    /// `Config`, an unusable one is rejected with the first fault found.
    pub fn new(
        diverge_iterations: u32,
        diverge_threshold: i64,
        scroll_speed: i64,
        starting_zoom: i64,
        viewport_height: u32,
        viewport_width: u32,
        zoom_speed: i64,
    ) -> (r: Result<Config, ConfigError>)
        ensures
            r is Ok <==> valid_config_params(
                diverge_iterations,
                diverge_threshold,
                scroll_speed,
                starting_zoom,
                viewport_height,
                viewport_width,
                zoom_speed,
            ),
            r matches Ok(c) ==> c == (Config {
                diverge_iterations,
                diverge_threshold,
                scroll_speed,
                starting_zoom,
                viewport_height,
                viewport_width,
                zoom_speed,
            }) && c.wf(),
            r matches Err(e) ==> Some(e) == first_config_error(
                diverge_iterations,
                diverge_threshold,
                scroll_speed,
                starting_zoom,
                viewport_height,
                viewport_width,
                zoom_speed,
            ),
    {
        if viewport_width == 0 {
            Err(ConfigError::InvalidViewportWidth)
        } else if viewport_height == 0 {
            Err(ConfigError::InvalidViewportHeight)
        } else if diverge_iterations == 0 {
            Err(ConfigError::InvalidIterations)
        } else if !(0 < diverge_threshold && diverge_threshold <= THRESHOLD_LIMIT) {
            Err(ConfigError::InvalidThreshold)
        } else if !(0 <= scroll_speed && scroll_speed <= SPEED_LIMIT) {
            Err(ConfigError::InvalidScrollSpeed)
        } else if !(ZOOM_MIN <= starting_zoom && starting_zoom <= ZOOM_MAX) {
            Err(ConfigError::InvalidStartingZoom)
        } else if !(0 < zoom_speed && zoom_speed < SCALE) {
            Err(ConfigError::InvalidZoomSpeed)
        } else {
            Ok(
                Config {
                    diverge_iterations,
                    diverge_threshold,
                    scroll_speed,
                    starting_zoom,
                    viewport_height,
                    viewport_width,
                    zoom_speed,
                },
            )
        }
    }

    pub fn diverge_iterations(&self) -> (r: u32)
        ensures
            r == self.diverge_iterations,
    {
        self.diverge_iterations
    }

    pub fn diverge_threshold(&self) -> (r: i64)
        ensures
            r == self.diverge_threshold,
    {
        self.diverge_threshold
    }

    pub fn scroll_speed(&self) -> (r: i64)
        ensures
            r == self.scroll_speed,
    {
        self.scroll_speed
    }

    pub fn starting_zoom(&self) -> (r: i64)
        ensures
            r == self.starting_zoom,
    {
        self.starting_zoom
    }

    pub fn viewport_height(&self) -> (r: u32)
        ensures
            r == self.viewport_height,
    {
        self.viewport_height
    }

    pub fn viewport_width(&self) -> (r: u32)
        ensures
            r == self.viewport_width,
    {
        self.viewport_width
    }

    pub fn zoom_speed(&self) -> (r: i64)
        ensures
            r == self.zoom_speed,
    {
        self.zoom_speed
    }
}

} // verus!

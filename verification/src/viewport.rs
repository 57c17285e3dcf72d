//! The viewport/navigation model.
//!
//! A `Viewport` owns the zoom level and the pan offsets, maps pixel
//! coordinates to plane coordinates under the current view, and applies
//! discrete navigation commands: panning scaled by elapsed time and by
//! the current zoom, and multiplicative zooming toward the view center.

use vstd::prelude::*;
use vstd::arithmetic::div_mod::{
    lemma_div_by_self, lemma_div_is_ordered, lemma_div_multiples_vanish,
    lemma_fundamental_div_mod, lemma_mod_division_less_than_divisor,
};
use vstd::arithmetic::mul::lemma_mul_upper_bound;
use crate::fixed::{
    fix_div_spec, fix_mul, fix_mul_spec, iabs, lemma_fix_mul_abs, lemma_fix_mul_bound,
    scaled_ratio, scaled_ratio_spec, SCALE,
};
use crate::mandelbrot::{COORD_LIMIT, PLANE_IM_SHIFT, PLANE_RE_SHIFT};

verus! {

/// Smallest zoom the model keeps: one raw unit, a plane value of 2^-32.
/// Repeated zooming in decays the zoom multiplicatively and would reach
/// zero in fixed point; the model stops at this floor so that the
/// mapping to the plane stays well defined.
pub const ZOOM_MIN: i64 = 1;

/// Largest zoom the model keeps: 2^45 raw units, a plane value of 2^13.
pub const ZOOM_MAX: i64 = 0x2000_0000_0000;

/// Largest offset magnitude the model keeps: 2^46 raw units, a plane
/// value of 2^14. Panning saturates here so that every mapped plane
/// coordinate stays within the evaluator's range.
pub const OFFSET_LIMIT: i64 = 0x4000_0000_0000;

/// Largest scroll speed accepted: 2^45 raw units, 2^13 plane units per
/// millisecond.
pub const SPEED_LIMIT: i64 = 0x2000_0000_0000;

/// An offset saturated to `[-OFFSET_LIMIT, OFFSET_LIMIT]`.
pub open spec fn clamp_offset_spec(x: int) -> int {
    if x > OFFSET_LIMIT {
        OFFSET_LIMIT as int
    } else if x < -OFFSET_LIMIT {
        -OFFSET_LIMIT as int
    } else {
        x
    }
}

/// The real plane coordinate of a pixel column: `(pixel / extent) * 2 *
/// zoom - 1.5 + offset`.
pub open spec fn spec_to_plane_re(pixel: int, extent: int, zoom: int, offset: int) -> int {
    fix_mul_spec(scaled_ratio_spec(pixel, extent), zoom) - PLANE_RE_SHIFT + offset
}

/// The imaginary plane coordinate of a pixel row: `(pixel / extent) * 2 *
/// zoom - 1.0 + offset`.
pub open spec fn spec_to_plane_im(pixel: int, extent: int, zoom: int, offset: int) -> int {
    fix_mul_spec(scaled_ratio_spec(pixel, extent), zoom) - PLANE_IM_SHIFT + offset
}

/// How far one pan command moves an offset: `scroll_speed * zoom *
/// delta_ms`, before saturation.
pub open spec fn pan_delta_spec(scroll_speed: int, zoom: int, delta_ms: int) -> int {
    fix_mul_spec(scroll_speed, zoom) * delta_ms
}

/// The zoom after one zoom-in tick: multiplied by the speed factor and
/// held at the `ZOOM_MIN` floor.
pub open spec fn zoom_in_spec(zoom: int, zoom_speed: int) -> int {
    if fix_mul_spec(zoom, zoom_speed) < ZOOM_MIN {
        ZOOM_MIN as int
    } else {
        fix_mul_spec(zoom, zoom_speed)
    }
}

/// The zoom after one zoom-out tick: divided by the speed factor and
/// held at the `ZOOM_MAX` cap.
pub open spec fn zoom_out_spec(zoom: int, zoom_speed: int) -> int {
    if fix_div_spec(zoom, zoom_speed) > ZOOM_MAX {
        ZOOM_MAX as int
    } else {
        fix_div_spec(zoom, zoom_speed)
    }
}

/// How far one zoom tick nudges both offsets so that the zoom focuses
/// toward the view center: `((1 - zoom_speed) / 2) * zoom`, with the
/// zoom already updated.
pub open spec fn nudge_spec(zoom_speed: int, zoom: int) -> int {
    fix_mul_spec(((SCALE as int) - zoom_speed) / 2, zoom)
}

/// A pan direction, one per arrow of the four held navigation keys.
#[derive(Clone, Copy, Debug, PartialEq, Eq, Structural)]
pub enum Direction {
    Left,
    Right,
    Up,
    Down,
}

/// The mutable view state: zoom level and pan offsets, all in raw
/// Q31.32 units.
#[derive(Clone, Copy, Debug, PartialEq, Eq, Structural)]
pub struct Viewport {
    pub zoom: i64,
    pub offset_x: i64,
    pub offset_y: i64,
}

impl Viewport {
    /// The state the navigation commands preserve: a strictly positive
    /// zoom within range and offsets within the saturation range.
    pub open spec fn wf(self) -> bool {
        &&& ZOOM_MIN <= self.zoom <= ZOOM_MAX
        &&& iabs(self.offset_x as int) <= OFFSET_LIMIT
        &&& iabs(self.offset_y as int) <= OFFSET_LIMIT
    }

    /// A viewport at the configured starting zoom with centered offsets.
    pub fn new(starting_zoom: i64) -> (v: Viewport)
        requires
            ZOOM_MIN <= starting_zoom <= ZOOM_MAX,
        ensures
            v == (Viewport { zoom: starting_zoom, offset_x: 0i64, offset_y: 0i64 }),
            v.wf(),
    {
        Viewport { zoom: starting_zoom, offset_x: 0, offset_y: 0 }
    }

    /// Maps a pixel to its plane point under the current view. The
    /// result stays within the evaluator's coordinate range.
    pub fn to_plane(
        &self,
        pixel_x: u32,
        pixel_y: u32,
        viewport_width: u32,
        viewport_height: u32,
    ) -> (p: (i64, i64))
        requires
            self.wf(),
            pixel_x < viewport_width,
            pixel_y < viewport_height,
        ensures
            p.0 as int == spec_to_plane_re(
                pixel_x as int,
                viewport_width as int,
                self.zoom as int,
                self.offset_x as int,
            ),
            p.1 as int == spec_to_plane_im(
                pixel_y as int,
                viewport_height as int,
                self.zoom as int,
                self.offset_y as int,
            ),
            iabs(p.0 as int) <= COORD_LIMIT,
            iabs(p.1 as int) <= COORD_LIMIT,
    {
        let rx: i64 = scaled_ratio(pixel_x, viewport_width);
        let ry: i64 = scaled_ratio(pixel_y, viewport_height);
        proof {
            lemma_fix_mul_bound(rx as int, self.zoom as int, 0x2_0000_0000int, ZOOM_MAX as int);
            lemma_fix_mul_bound(ry as int, self.zoom as int, 0x2_0000_0000int, ZOOM_MAX as int);
            assert(0x2_0000_0000int * 0x2000_0000_0000int == 0x4000_0000_0000_0000_0000int)
                by (nonlinear_arith);
            assert(0x1_0000_0000int * 0x4000_0000_0000int == 0x4000_0000_0000_0000_0000int)
                by (nonlinear_arith);
            lemma_div_multiples_vanish(0x4000_0000_0000int, 0x1_0000_0000int);
        }
        let sx: i64 = fix_mul(rx, self.zoom);
        let sy: i64 = fix_mul(ry, self.zoom);
        let plane_re: i64 = sx - PLANE_RE_SHIFT + self.offset_x;
        let plane_im: i64 = sy - PLANE_IM_SHIFT + self.offset_y;
        (plane_re, plane_im)
    }

    /// Pans one tick: moves the offset of the chosen axis by
    /// `scroll_speed * zoom * delta_ms`, saturating at the offset range.
    /// The apparent speed scales with the zoom so panning looks steady
    /// at every magnification.
    pub fn pan(&mut self, direction: Direction, delta_ms: u32, scroll_speed: i64)
        requires
            old(self).wf(),
            0 <= scroll_speed <= SPEED_LIMIT,
        ensures
            final(self).wf(),
            final(self).zoom == old(self).zoom,
            ({
                let d = pan_delta_spec(scroll_speed as int, old(self).zoom as int, delta_ms as int);
                match direction {
                    Direction::Left => final(self).offset_x as int == clamp_offset_spec(
                        old(self).offset_x - d,
                    ) && final(self).offset_y == old(self).offset_y,
                    Direction::Right => final(self).offset_x as int == clamp_offset_spec(
                        old(self).offset_x + d,
                    ) && final(self).offset_y == old(self).offset_y,
                    Direction::Up => final(self).offset_y as int == clamp_offset_spec(
                        old(self).offset_y - d,
                    ) && final(self).offset_x == old(self).offset_x,
                    Direction::Down => final(self).offset_y as int == clamp_offset_spec(
                        old(self).offset_y + d,
                    ) && final(self).offset_x == old(self).offset_x,
                }
            }),
    {
        proof {
            lemma_mul_upper_bound(
                scroll_speed as int,
                SPEED_LIMIT as int,
                self.zoom as int,
                ZOOM_MAX as int,
            );
            assert(0x2000_0000_0000int * 0x2000_0000_0000int
                == 0x400_0000_0000_0000_0000_0000int) by (nonlinear_arith);
            assert(0x1_0000_0000int * 0x400_0000_0000_0000int
                == 0x400_0000_0000_0000_0000_0000int) by (nonlinear_arith);
            lemma_div_multiples_vanish(0x400_0000_0000_0000int, 0x1_0000_0000int);
            lemma_div_is_ordered(
                (scroll_speed as int) * (self.zoom as int),
                0x400_0000_0000_0000_0000_0000int,
                SCALE as int,
            );
        }
        let zoomed: u128 = ((scroll_speed as u128) * (self.zoom as u128)) / (SCALE as u128);
        proof {
            assert(zoomed as int == fix_mul_spec(scroll_speed as int, self.zoom as int));
            lemma_mul_upper_bound(zoomed as int, 0x400_0000_0000_0000int, delta_ms as int,
                0xffff_ffffint);
            assert(0x400_0000_0000_0000int * 0xffff_ffffint
                <= 0x400_0000_0000_0000_0000_0000int) by (nonlinear_arith);
        }
        let step: u128 = zoomed * (delta_ms as u128);
        match direction {
            Direction::Left => {
                self.offset_x = offset_sub(self.offset_x, step);
            },
            Direction::Right => {
                self.offset_x = offset_add(self.offset_x, step);
            },
            Direction::Up => {
                self.offset_y = offset_sub(self.offset_y, step);
            },
            Direction::Down => {
                self.offset_y = offset_add(self.offset_y, step);
            },
        }
    }

    /// Zooms in one tick: the zoom shrinks by the speed factor (a factor
    /// below one narrows the represented plane range) down to the
    /// `ZOOM_MIN` floor, and both offsets are nudged forward by
    /// `((1 - zoom_speed) / 2) * zoom` so the view closes in on its
    /// center. The command applies one multiplicative tick per processed
    /// input tick, whatever the elapsed time.
    pub fn zoom_in(&mut self, _delta_ms: u32, zoom_speed: i64)
        requires
            old(self).wf(),
            0 < zoom_speed < SCALE,
        ensures
            final(self).wf(),
            final(self).zoom as int == zoom_in_spec(old(self).zoom as int, zoom_speed as int),
            final(self).offset_x as int == clamp_offset_spec(
                old(self).offset_x + nudge_spec(zoom_speed as int, final(self).zoom as int),
            ),
            final(self).offset_y as int == clamp_offset_spec(
                old(self).offset_y + nudge_spec(zoom_speed as int, final(self).zoom as int),
            ),
    {
        proof {
            lemma_fix_mul_bound(self.zoom as int, zoom_speed as int, ZOOM_MAX as int, SCALE as int);
            assert(0x2000_0000_0000int * 0x1_0000_0000int == 0x2000_0000_0000_0000_0000int)
                by (nonlinear_arith);
            lemma_div_multiples_vanish(0x2000_0000_0000int, 0x1_0000_0000int);
            lemma_fix_mul_abs(self.zoom as int, zoom_speed as int);
        }
        let mut nz: i64 = fix_mul(self.zoom, zoom_speed);
        if nz < ZOOM_MIN {
            nz = ZOOM_MIN;
        }
        self.zoom = nz;
        let half: i64 = (((SCALE - zoom_speed) as u64) / 2) as i64;
        let nudge: i64 = zoom_nudge(half, nz);
        self.offset_x = offset_add(self.offset_x, nudge as u128);
        self.offset_y = offset_add(self.offset_y, nudge as u128);
    }

    /// Zooms out one tick: the zoom grows by the inverse of the speed
    /// factor up to the `ZOOM_MAX` cap, and both offsets are nudged back
    /// by `((1 - zoom_speed) / 2) * zoom`, the mirror of a zoom-in tick.
    /// The command applies one multiplicative tick per processed input
    /// tick, whatever the elapsed time.
    pub fn zoom_out(&mut self, _delta_ms: u32, zoom_speed: i64)
        requires
            old(self).wf(),
            0 < zoom_speed < SCALE,
        ensures
            final(self).wf(),
            final(self).zoom as int == zoom_out_spec(old(self).zoom as int, zoom_speed as int),
            final(self).offset_x as int == clamp_offset_spec(
                old(self).offset_x - nudge_spec(zoom_speed as int, final(self).zoom as int),
            ),
            final(self).offset_y as int == clamp_offset_spec(
                old(self).offset_y - nudge_spec(zoom_speed as int, final(self).zoom as int),
            ),
    {
        proof {
            lemma_mul_upper_bound(self.zoom as int, ZOOM_MAX as int, SCALE as int, SCALE as int);
            assert(0x2000_0000_0000int * 0x1_0000_0000int == 0x2000_0000_0000_0000_0000int)
                by (nonlinear_arith);
            assert((self.zoom as int) * (SCALE as int) >= (self.zoom as int) * (zoom_speed as int))
                by (nonlinear_arith)
                requires
                    0 <= self.zoom,
                    zoom_speed <= SCALE,
            ;
            assert((self.zoom as int) * (zoom_speed as int) == (zoom_speed as int) * (
            self.zoom as int)) by (nonlinear_arith);
            lemma_div_multiples_vanish(self.zoom as int, zoom_speed as int);
            lemma_div_is_ordered(
                (self.zoom as int) * (zoom_speed as int),
                (self.zoom as int) * (SCALE as int),
                zoom_speed as int,
            );
        }
        let q: u128 = ((self.zoom as u128) * (SCALE as u128)) / (zoom_speed as u128);
        let nz: i64 = if q > (ZOOM_MAX as u128) {
            ZOOM_MAX
        } else {
            q as i64
        };
        proof {
            assert(q as int == fix_div_spec(self.zoom as int, zoom_speed as int));
            assert(nz as int == zoom_out_spec(self.zoom as int, zoom_speed as int));
        }
        self.zoom = nz;
        let half: i64 = (((SCALE - zoom_speed) as u64) / 2) as i64;
        let nudge: i64 = zoom_nudge(half, nz);
        self.offset_x = offset_sub(self.offset_x, nudge as u128);
        self.offset_y = offset_sub(self.offset_y, nudge as u128);
    }
}

/// The center nudge of one zoom tick: `half` is `(1 - zoom_speed) / 2`
/// in raw units and `zoom` the already-updated zoom.
fn zoom_nudge(half: i64, zoom: i64) -> (r: i64)
    requires
        0 <= half <= 0x8000_0000,
        ZOOM_MIN <= zoom <= ZOOM_MAX,
    ensures
        r as int == fix_mul_spec(half as int, zoom as int),
        0 <= r <= 0x1000_0000_0000,
{
    proof {
        lemma_fix_mul_bound(half as int, zoom as int, 0x8000_0000int, ZOOM_MAX as int);
        assert(0x8000_0000int * 0x2000_0000_0000int == 0x1000_0000_0000_0000_0000int)
            by (nonlinear_arith);
        assert(0x1_0000_0000int * 0x1000_0000_0000int == 0x1000_0000_0000_0000_0000int)
            by (nonlinear_arith);
        lemma_div_multiples_vanish(0x1000_0000_0000int, 0x1_0000_0000int);
        lemma_fix_mul_abs(half as int, zoom as int);
    }
    fix_mul(half, zoom)
}

/// Raises an offset by a nonnegative delta, saturating at `OFFSET_LIMIT`.
fn offset_add(offset: i64, delta: u128) -> (r: i64)
    requires
        iabs(offset as int) <= OFFSET_LIMIT,
        delta <= 0x10_0000_0000_0000_0000_0000_0000,
    ensures
        r as int == clamp_offset_spec(offset + delta),
{
    let sum: i128 = (offset as i128) + (delta as i128);
    if sum > (OFFSET_LIMIT as i128) {
        OFFSET_LIMIT
    } else {
        sum as i64
    }
}

/// Lowers an offset by a nonnegative delta, saturating at `-OFFSET_LIMIT`.
fn offset_sub(offset: i64, delta: u128) -> (r: i64)
    requires
        iabs(offset as int) <= OFFSET_LIMIT,
        delta <= 0x10_0000_0000_0000_0000_0000_0000,
    ensures
        r as int == clamp_offset_spec(offset - delta),
{
    let diff: i128 = (offset as i128) - (delta as i128);
    if diff < (-OFFSET_LIMIT as i128) {
        -OFFSET_LIMIT
    } else {
        diff as i64
    }
}

/// Law: one zoom-in tick followed by one zoom-out tick with the same
/// speed factor restores the zoom up to the fixed-point rounding of the
/// two ticks: the restored zoom never overshoots the original and falls
/// short by at most `SCALE / zoom_speed + 2` raw units. The law asks
/// that `zoom * zoom_speed` reaches `SCALE`: at smaller zooms the
/// zoom-in tick lands on the `ZOOM_MIN` floor and the round trip is not
/// an inverse.
pub proof fn lemma_zoom_round_trip(zoom: int, zoom_speed: int)
    requires
        0 < zoom_speed < SCALE,
        ZOOM_MIN <= zoom <= ZOOM_MAX,
        SCALE <= zoom * zoom_speed,
    ensures
        zoom_out_spec(zoom_in_spec(zoom, zoom_speed), zoom_speed) <= zoom,
        zoom - zoom_out_spec(zoom_in_spec(zoom, zoom_speed), zoom_speed) <= (SCALE as int)
            / zoom_speed + 2,
{
    let s = zoom_speed;
    let big = SCALE as int;
    let zs = zoom * s;
    assert(iabs(zoom) == zoom && iabs(s) == s);
    let m = zs / big;
    assert(fix_mul_spec(zoom, s) == m);
    lemma_div_is_ordered(big, zs, big);
    lemma_div_by_self(big);
    assert(m >= 1);
    assert(zoom_in_spec(zoom, s) == m);
    assert(iabs(m) == m);
    let d = (m * big) / s;
    assert(fix_div_spec(m, s) == d);
    lemma_fundamental_div_mod(zs, big);
    lemma_mod_division_less_than_divisor(zs, big);
    let r1 = zs % big;
    lemma_fundamental_div_mod(m * big, s);
    lemma_mod_division_less_than_divisor(m * big, s);
    let r2 = (m * big) % s;
    assert(big * m == m * big) by (nonlinear_arith);
    assert(s * d == zoom * s - r1 - r2);
    assert(d <= zoom) by (nonlinear_arith)
        requires
            s > 0,
            s * d == zoom * s - r1 - r2,
            r1 >= 0,
            r2 >= 0,
    ;
    lemma_fundamental_div_mod(big, s);
    lemma_mod_division_less_than_divisor(big, s);
    let q2 = big / s;
    assert((zoom - d) * s == r1 + r2) by (nonlinear_arith)
        requires
            s * d == zoom * s - r1 - r2,
    ;
    assert(zoom - d <= q2 + 2) by (nonlinear_arith)
        requires
            s > 0,
            (zoom - d) * s == r1 + r2,
            r1 < big,
            r2 < s,
            big == s * q2 + big % s,
            0 <= big % s,
    ;
    assert(zoom_out_spec(m, s) == d);
}

} // verus!

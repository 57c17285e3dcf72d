//! The frame renderer.
//!
//! For every pixel of the viewport, maps the pixel to its plane point
//! under the current view, evaluates the escape time, and writes one
//! RGBA quadruplet into a row-major pixel buffer: a palette entry
//! chosen by the escape index for points that diverge, a fixed in-set
//! color for points that do not. The whole buffer is rewritten on every
//! call and is a pure function of its inputs.

use vstd::prelude::*;
use vstd::arithmetic::mul::{lemma_mul_is_distributive_add_other_way, lemma_mul_nonnegative};
use crate::mandelbrot::{evaluate, spec_evaluate, Mandelbrot};
use crate::viewport::{spec_to_plane_im, spec_to_plane_re, Viewport};

verus! {

/// One RGBA color, eight bits per channel.
#[derive(Clone, Copy, Debug, PartialEq, Eq, Structural)]
pub struct Rgba {
    pub r: u8,
    pub g: u8,
    pub b: u8,
    pub a: u8,
}

/// The fixed color of points that stay in the set: opaque black.
pub open spec fn in_set_color() -> Rgba {
    Rgba { r: 0, g: 0, b: 0, a: 0xff }
}

/// The color owed to the pixel `(x, y)`: its plane point is evaluated
/// against the configured budget and threshold, a divergence at index
/// `n` picks the `n`-th palette entry, and staying in the set picks the
/// in-set color.
pub open spec fn spec_pixel(m: Mandelbrot, v: Viewport, palette: Seq<Rgba>, x: int, y: int) -> Rgba {
    let c_re = spec_to_plane_re(x, m.width as int, v.zoom as int, v.offset_x as int);
    let c_im = spec_to_plane_im(y, m.height as int, v.zoom as int, v.offset_y as int);
    match spec_evaluate(c_re, c_im, m.diverge_iterations, m.diverge_threshold as int) {
        Some(n) => palette[n as int],
        None => in_set_color(),
    }
}

/// The RGBA quadruplet stored for pixel index `i` of a row-major buffer.
pub open spec fn rgba_at(bytes: Seq<u8>, i: int) -> Rgba {
    Rgba { r: bytes[4 * i], g: bytes[4 * i + 1], b: bytes[4 * i + 2], a: bytes[4 * i + 3] }
}

/// Pixel indices of a row-major scan grow with the row and, within one
/// row, with the column.
proof fn lemma_pixel_index(xx: int, yy: int, w: int, x: int, y: int)
    requires
        0 <= xx < w,
        0 <= yy < y,
        0 <= x,
    ensures
        0 <= yy * w + xx,
        yy * w + xx < y * w + x,
{
    lemma_mul_nonnegative(yy, w);
    assert(yy * w + xx < y * w + x) by (nonlinear_arith)
        requires
            0 <= xx < w,
            0 <= yy < y,
            0 <= x,
    ;
}

/// Renders one full frame: a row-major RGBA8 buffer of
/// `width * height` quadruplets in which every pixel holds exactly the
/// color `spec_pixel` owes it. The palette must hold one entry per
/// possible escape index, that is `diverge_iterations` many.
pub fn render_frame(m: &Mandelbrot, v: &Viewport, palette: &Vec<Rgba>) -> (buf: Vec<u8>)
    requires
        m.wf(),
        v.wf(),
        palette@.len() == m.diverge_iterations,
        4 * (m.width as int) * (m.height as int) <= usize::MAX,
    ensures
        buf@.len() == 4 * (m.width as int) * (m.height as int),
        forall|x: int, y: int|
            0 <= x < m.width && 0 <= y < m.height ==> rgba_at(buf@, y * (m.width as int) + x)
                == #[trigger] spec_pixel(*m, *v, palette@, x, y),
{
    let mut buf: Vec<u8> = Vec::new();
    let mut y: u32 = 0;
    while y < m.height
        invariant
            m.wf(),
            v.wf(),
            palette@.len() == m.diverge_iterations,
            y <= m.height,
            buf@.len() == 4 * ((y as int) * (m.width as int)),
            forall|xx: int, yy: int|
                0 <= xx < m.width && 0 <= yy < y ==> rgba_at(buf@, yy * (m.width as int) + xx)
                    == #[trigger] spec_pixel(*m, *v, palette@, xx, yy),
        decreases m.height - y,
    {
        let mut x: u32 = 0;
        while x < m.width
            invariant
                m.wf(),
                v.wf(),
                palette@.len() == m.diverge_iterations,
                y < m.height,
                x <= m.width,
                buf@.len() == 4 * ((y as int) * (m.width as int) + (x as int)),
                forall|xx: int, yy: int|
                    0 <= xx < m.width && 0 <= yy < y ==> rgba_at(buf@, yy * (m.width as int) + xx)
                        == #[trigger] spec_pixel(*m, *v, palette@, xx, yy),
                forall|xx: int|
                    0 <= xx < x ==> rgba_at(buf@, (y as int) * (m.width as int) + xx)
                        == #[trigger] spec_pixel(*m, *v, palette@, xx, y as int),
            decreases m.width - x,
        {
            let ghost prev: Seq<u8> = buf@;
            let p: (i64, i64) = v.to_plane(x, y, m.width, m.height);
            let result: Option<u32> = evaluate(p.0, p.1, m.diverge_iterations, m.diverge_threshold);
            let color: Rgba = match result {
                Some(n) => palette[n as usize],
                None => Rgba { r: 0, g: 0, b: 0, a: 0xff },
            };
            buf.push(color.r);
            buf.push(color.g);
            buf.push(color.b);
            buf.push(color.a);
            proof {
                let wi = m.width as int;
                let xi = x as int;
                let yi = y as int;
                let idx = yi * wi + xi;
                assert(color == spec_pixel(*m, *v, palette@, xi, yi));
                assert(buf@[4 * idx] == color.r);
                assert(buf@[4 * idx + 1] == color.g);
                assert(buf@[4 * idx + 2] == color.b);
                assert(buf@[4 * idx + 3] == color.a);
                assert(rgba_at(buf@, idx) == spec_pixel(*m, *v, palette@, xi, yi));
                assert forall|xx: int, yy: int|
                    0 <= xx < wi && 0 <= yy < yi implies rgba_at(buf@, yy * wi + xx)
                    == #[trigger] spec_pixel(*m, *v, palette@, xx, yy) by {
                    lemma_pixel_index(xx, yy, wi, xi, yi);
                    assert(rgba_at(prev, yy * wi + xx) == spec_pixel(*m, *v, palette@, xx, yy));
                    assert(rgba_at(buf@, yy * wi + xx) == rgba_at(prev, yy * wi + xx));
                }
                assert forall|xx: int|
                    0 <= xx < xi + 1 implies rgba_at(buf@, yi * wi + xx) == #[trigger] spec_pixel(
                    *m,
                    *v,
                    palette@,
                    xx,
                    yi,
                ) by {
                    if xx < xi {
                        assert(rgba_at(prev, yi * wi + xx) == spec_pixel(*m, *v, palette@, xx, yi));
                        assert(rgba_at(buf@, yi * wi + xx) == rgba_at(prev, yi * wi + xx));
                    }
                }
            }
            x = x + 1;
        }
        proof {
            let wi = m.width as int;
            let yi = y as int;
            lemma_mul_is_distributive_add_other_way(wi, yi, 1);
            assert((yi + 1) * wi == yi * wi + wi);
            assert forall|xx: int, yy: int|
                0 <= xx < wi && 0 <= yy < yi + 1 implies rgba_at(buf@, yy * wi + xx)
                == #[trigger] spec_pixel(*m, *v, palette@, xx, yy) by {
                if yy == yi {
                    assert(rgba_at(buf@, yi * wi + xx) == spec_pixel(*m, *v, palette@, xx, yi));
                }
            }
        }
        y = y + 1;
    }
    proof {
        assert(4 * ((m.height as int) * (m.width as int)) == 4 * (m.width as int) * (
        m.height as int)) by (nonlinear_arith);
    }
    buf
}

} // verus!

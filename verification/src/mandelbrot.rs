//! The escape-time evaluator.
//!
//! A plane point `c` belongs to the rendered approximation of the set
//! when the orbit `z_{n+1} = z_n^2 + c`, started at `z_0 = 0`, keeps
//! `|z|^2` at or below a divergence threshold for the whole iteration
//! budget. `evaluate` returns the first iteration index at which the
//! orbit escapes, or `None` when it never does within the budget.

use vstd::prelude::*;
use vstd::arithmetic::div_mod::{lemma_div_multiples_vanish, lemma_div_nonincreasing};
use vstd::arithmetic::mul::{lemma_mul_inequality, lemma_mul_upper_bound};
use crate::fixed::{
    fix_mul, fix_mul_spec, iabs, lemma_abs_sq_le, lemma_fix_mul_abs, lemma_fix_mul_bound,
    lemma_fix_mul_zero, lemma_numerator_bound, scaled_ratio, scaled_ratio_spec, SCALE,
};

verus! {

/// Largest magnitude accepted for a plane coordinate handed to the
/// evaluator: 2^48 raw units, a plane value of 2^16. Keeps every
/// intermediate of the iteration within `i64`.
pub const COORD_LIMIT: i64 = 0x1_0000_0000_0000;

/// Largest magnitude accepted for the divergence threshold: 2^45 raw
/// units, a plane value of 2^13.
pub const THRESHOLD_LIMIT: i64 = 0x2000_0000_0000;

/// Real shift of the default framing: 1.5 in raw units, placing the
/// default real range at [-1.5, 0.5].
pub const PLANE_RE_SHIFT: i64 = 0x1_8000_0000;

/// Imaginary shift of the default framing: 1.0 in raw units, placing the
/// default imaginary range at [-1.0, 1.0].
pub const PLANE_IM_SHIFT: i64 = 0x1_0000_0000;

/// Real part of one orbit step: `re^2 - im^2 + c_re`.
pub open spec fn step_re(re: int, im: int, c_re: int) -> int {
    fix_mul_spec(re, re) - fix_mul_spec(im, im) + c_re
}

/// Imaginary part of one orbit step: `2 * re * im + c_im`.
pub open spec fn step_im(re: int, im: int, c_im: int) -> int {
    2 * fix_mul_spec(re, im) + c_im
}

/// Squared magnitude `re^2 + im^2` of an orbit point.
pub open spec fn mag2_spec(re: int, im: int) -> int {
    fix_mul_spec(re, re) + fix_mul_spec(im, im)
}

/// The orbit of `c`: `orbit(0) = 0` and `orbit(n + 1) = orbit(n)^2 + c`.
pub open spec fn orbit(n: nat, c_re: int, c_im: int) -> (int, int)
    decreases n,
{
    if n == 0 {
        (0int, 0int)
    } else {
        let prev = orbit((n - 1) as nat, c_re, c_im);
        (step_re(prev.0, prev.1, c_re), step_im(prev.0, prev.1, c_im))
    }
}

/// Whether the orbit of `c` is first seen past the threshold when the
/// step of iteration index `n` has been applied.
pub open spec fn diverged_at(n: nat, c_re: int, c_im: int, threshold: int) -> bool {
    let z = orbit(n + 1, c_re, c_im);
    mag2_spec(z.0, z.1) > threshold
}

/// First iteration index in `[k, max)` whose step pushes the orbit past
/// the threshold, or `None` when none does.
pub open spec fn eval_from(c_re: int, c_im: int, threshold: int, k: u32, max: u32) -> Option<u32>
    decreases max - k,
{
    if k >= max {
        None
    } else if diverged_at(k as nat, c_re, c_im, threshold) {
        Some(k)
    } else {
        eval_from(c_re, c_im, threshold, (k + 1) as u32, max)
    }
}

/// What `evaluate` returns: the first iteration index at which the orbit
/// of `c` escapes, or `None` when it stays within the threshold for the
/// whole budget.
pub open spec fn spec_evaluate(c_re: int, c_im: int, max: u32, threshold: int) -> Option<u32> {
    eval_from(c_re, c_im, threshold, 0, max)
}

/// A squared-magnitude bound caps both components: if `re^2 + im^2`
/// stays at or below a threshold within range, each component's
/// magnitude stays at or below 2^39 raw units.
proof fn lemma_component_bounds(re: int, im: int, threshold: int)
    requires
        mag2_spec(re, im) <= threshold,
        threshold <= THRESHOLD_LIMIT,
    ensures
        iabs(re) <= 0x80_0000_0000,
        iabs(im) <= 0x80_0000_0000,
{
    lemma_fix_mul_abs(re, re);
    lemma_fix_mul_abs(im, im);
    assert(fix_mul_spec(re, re) == (iabs(re) * iabs(re)) / (SCALE as int));
    assert(fix_mul_spec(im, im) == (iabs(im) * iabs(im)) / (SCALE as int));
    lemma_numerator_bound(iabs(re) * iabs(re), SCALE as int, threshold);
    lemma_numerator_bound(iabs(im) * iabs(im), SCALE as int, threshold);
    assert(threshold * (SCALE as int) <= 0x2000_0000_0000int * 0x1_0000_0000int) by {
        lemma_mul_inequality(threshold, 0x2000_0000_0000int, 0x1_0000_0000int);
    }
    assert(0x2000_0000_0000int * 0x1_0000_0000int == 0x2000_0000_0000_0000_0000int)
        by (nonlinear_arith);
    assert(0x80_0000_0000int * 0x80_0000_0000int == 0x4000_0000_0000_0000_0000int)
        by (nonlinear_arith);
    lemma_abs_sq_le(re, 0x80_0000_0000int);
    lemma_abs_sq_le(im, 0x80_0000_0000int);
}

/// Decides `mag2_spec(re, im) > threshold` without materializing the
/// squared magnitude in a 64-bit value.
fn mag_exceeds(re: i64, im: i64, threshold: i64) -> (r: bool)
    requires
        iabs(re as int) <= 0x4000_0000_0000_0000,
        iabs(im as int) <= 0x4000_0000_0000_0000,
    ensures
        r == (mag2_spec(re as int, im as int) > threshold),
{
    let ma: u64 = if re < 0 {
        (-(re as i128)) as u64
    } else {
        re as u64
    };
    let mb: u64 = if im < 0 {
        (-(im as i128)) as u64
    } else {
        im as u64
    };
    proof {
        assert(ma as int == iabs(re as int));
        assert(mb as int == iabs(im as int));
        lemma_mul_upper_bound(
            ma as int,
            0x4000_0000_0000_0000int,
            ma as int,
            0x4000_0000_0000_0000int,
        );
        lemma_mul_upper_bound(
            mb as int,
            0x4000_0000_0000_0000int,
            mb as int,
            0x4000_0000_0000_0000int,
        );
        assert(0x4000_0000_0000_0000int * 0x4000_0000_0000_0000int
            == 0x1000_0000_0000_0000_0000_0000_0000_0000int) by (nonlinear_arith);
        lemma_div_nonincreasing((ma as int) * (ma as int), SCALE as int);
        lemma_div_nonincreasing((mb as int) * (mb as int), SCALE as int);
        lemma_fix_mul_abs(re as int, re as int);
        lemma_fix_mul_abs(im as int, im as int);
        assert(fix_mul_spec(re as int, re as int) == ((ma as int) * (ma as int)) / (SCALE as int));
        assert(fix_mul_spec(im as int, im as int) == ((mb as int) * (mb as int)) / (SCALE as int));
    }
    let q: u128 = ((ma as u128) * (ma as u128)) / (SCALE as u128)
        + ((mb as u128) * (mb as u128)) / (SCALE as u128);
    if threshold < 0 {
        true
    } else {
        q > (threshold as u128)
    }
}

/// Escape-time evaluation of the plane point `c`.
///
/// Iterates `z_{n+1} = z_n^2 + c` from `z_0 = 0` for at most
/// `max_iterations` steps and returns `Some(n)` for the first 0-indexed
/// step `n` whose result has squared magnitude above
/// `divergence_threshold`, or `None` when no step within the budget
/// does. A budget of zero returns `None` without iterating, and a
/// non-positive threshold makes the very first step escape unless the
/// orbit sticks to the origin.
pub fn evaluate(c_re: i64, c_im: i64, max_iterations: u32, divergence_threshold: i64) -> (r: Option<
    u32,
>)
    requires
        iabs(c_re as int) <= COORD_LIMIT,
        iabs(c_im as int) <= COORD_LIMIT,
        iabs(divergence_threshold as int) <= THRESHOLD_LIMIT,
    ensures
        r == spec_evaluate(c_re as int, c_im as int, max_iterations, divergence_threshold as int),
        r matches Some(n) ==> n < max_iterations
            && diverged_at(n as nat, c_re as int, c_im as int, divergence_threshold as int)
            && (forall|k: nat|
                k < n ==> !diverged_at(k, c_re as int, c_im as int, divergence_threshold as int)),
        r is None ==> forall|k: nat|
            k < max_iterations ==> !diverged_at(
                k,
                c_re as int,
                c_im as int,
                divergence_threshold as int,
            ),
{
    let ghost cre: int = c_re as int;
    let ghost cim: int = c_im as int;
    let ghost t: int = divergence_threshold as int;
    let mut re: i64 = 0;
    let mut im: i64 = 0;
    let mut n: u32 = 0;
    while n < max_iterations
        invariant
            n <= max_iterations,
            re as int == orbit(n as nat, cre, cim).0,
            im as int == orbit(n as nat, cre, cim).1,
            forall|k: nat| k < n ==> !diverged_at(k, cre, cim, t),
            spec_evaluate(cre, cim, max_iterations, t) == eval_from(cre, cim, t, n, max_iterations),
            cre == c_re as int,
            cim == c_im as int,
            t == divergence_threshold as int,
            iabs(cre) <= COORD_LIMIT,
            iabs(cim) <= COORD_LIMIT,
            iabs(t) <= THRESHOLD_LIMIT,
        decreases max_iterations - n,
    {
        proof {
            if n == 0 {
                assert(orbit(0, cre, cim) == (0int, 0int));
                assert(iabs(re as int) <= 0x80_0000_0000int);
                assert(iabs(im as int) <= 0x80_0000_0000int);
            } else {
                assert(!diverged_at((n - 1) as nat, cre, cim, t));
                assert(orbit((n - 1) as nat + 1, cre, cim) == orbit(n as nat, cre, cim));
                lemma_component_bounds(re as int, im as int, t);
            }
            lemma_mul_upper_bound(
                iabs(re as int),
                0x80_0000_0000int,
                iabs(re as int),
                0x80_0000_0000int,
            );
            lemma_mul_upper_bound(
                iabs(im as int),
                0x80_0000_0000int,
                iabs(im as int),
                0x80_0000_0000int,
            );
            lemma_mul_upper_bound(
                iabs(re as int),
                0x80_0000_0000int,
                iabs(im as int),
                0x80_0000_0000int,
            );
            assert(0x80_0000_0000int * 0x80_0000_0000int == 0x4000_0000_0000_0000_0000int)
                by (nonlinear_arith);
            lemma_fix_mul_bound(re as int, re as int, 0x80_0000_0000int, 0x80_0000_0000int);
            lemma_fix_mul_bound(im as int, im as int, 0x80_0000_0000int, 0x80_0000_0000int);
            lemma_fix_mul_bound(re as int, im as int, 0x80_0000_0000int, 0x80_0000_0000int);
            assert(0x1_0000_0000int * 0x4000_0000_0000int == 0x4000_0000_0000_0000_0000int)
                by (nonlinear_arith);
            lemma_div_multiples_vanish(0x4000_0000_0000int, 0x1_0000_0000int);
        }
        let a2: i64 = fix_mul(re, re);
        let b2: i64 = fix_mul(im, im);
        let ab: i64 = fix_mul(re, im);
        let new_re: i64 = a2 - b2 + c_re;
        let new_im: i64 = 2 * ab + c_im;
        proof {
            let prev = orbit(n as nat, cre, cim);
            assert(orbit(n as nat + 1, cre, cim) == (
                step_re(prev.0, prev.1, cre),
                step_im(prev.0, prev.1, cim),
            ));
            assert(new_re as int == orbit(n as nat + 1, cre, cim).0);
            assert(new_im as int == orbit(n as nat + 1, cre, cim).1);
        }
        re = new_re;
        im = new_im;
        if mag_exceeds(re, im, divergence_threshold) {
            proof {
                assert(diverged_at(n as nat, cre, cim, t));
                assert(eval_from(cre, cim, t, n, max_iterations) == Some(n));
            }
            return Some(n);
        }
        proof {
            assert(!diverged_at(n as nat, cre, cim, t));
            assert(eval_from(cre, cim, t, n, max_iterations) == eval_from(
                cre,
                cim,
                t,
                (n + 1) as u32,
                max_iterations,
            ));
            assert forall|k: nat| k < n + 1 implies !diverged_at(k, cre, cim, t) by {
                if k < n {
                    assert(!diverged_at(k, cre, cim, t));
                } else {
                    assert(k == n);
                }
            }
        }
        n = n + 1;
    }
    proof {
        assert(eval_from(cre, cim, t, n, max_iterations) is None);
    }
    None
}

/// Law: a point whose very first orbit step already exceeds the
/// threshold is reported as escaping at index 0. In particular every
/// `c` with `|c|^2` above the threshold, such as `c = 2 + 0i` against
/// any threshold below 4, escapes immediately.
pub proof fn lemma_immediate_divergence(c_re: int, c_im: int, max: u32, threshold: int)
    requires
        1 <= max,
        mag2_spec(c_re, c_im) > threshold,
    ensures
        spec_evaluate(c_re, c_im, max, threshold) == Some(0u32),
{
    lemma_fix_mul_zero();
    assert(orbit(0, c_re, c_im) == (0int, 0int));
    assert(orbit(1, c_re, c_im) == (step_re(0, 0, c_re), step_im(0, 0, c_im)));
    assert(step_re(0, 0, c_re) == c_re);
    assert(step_im(0, 0, c_im) == c_im);
    assert(diverged_at(0, c_re, c_im, threshold));
    assert(eval_from(c_re, c_im, threshold, 0, max) == Some(0u32));
}

/// The orbit of the origin never leaves the origin.
proof fn lemma_orbit_origin(n: nat)
    ensures
        orbit(n, 0, 0) == (0int, 0int),
    decreases n,
{
    lemma_fix_mul_zero();
    if n > 0 {
        lemma_orbit_origin((n - 1) as nat);
        assert(orbit(n, 0, 0) == (step_re(0, 0, 0), step_im(0, 0, 0)));
    }
}

/// When no iteration index in `[k, max)` diverges, the scan from `k`
/// reports `None`.
proof fn lemma_eval_from_none(c_re: int, c_im: int, threshold: int, k: u32, max: u32)
    requires
        forall|j: u32| k <= j < max ==> !diverged_at(j as nat, c_re, c_im, threshold),
    ensures
        eval_from(c_re, c_im, threshold, k, max) is None,
    decreases max - k,
{
    if k < max {
        assert(!diverged_at(k as nat, c_re, c_im, threshold));
        lemma_eval_from_none(c_re, c_im, threshold, (k + 1) as u32, max);
    }
}

/// Law: the origin belongs to the set. For every iteration budget and
/// every nonnegative threshold, evaluating `c = 0 + 0i` reports `None`.
pub proof fn lemma_origin_never_diverges(max: u32, threshold: int)
    requires
        0 <= threshold,
    ensures
        spec_evaluate(0, 0, max, threshold) == None::<u32>,
{
    lemma_fix_mul_zero();
    assert forall|j: u32| 0 <= j < max implies !diverged_at(j as nat, 0, 0, threshold) by {
        lemma_orbit_origin(j as nat + 1);
        assert(mag2_spec(0, 0) == 0);
    }
    lemma_eval_from_none(0, 0, threshold, 0, max);
}

/// Law: a zero iteration budget reports `None` for every plane point and
/// every threshold, without looking at the orbit.
pub proof fn lemma_zero_iteration_budget(c_re: int, c_im: int, threshold: int)
    ensures
        spec_evaluate(c_re, c_im, 0, threshold) == None::<u32>,
{
}

/// Evaluator configuration: the viewport extent of the default framing
/// together with the iteration budget and the divergence threshold.
pub struct Mandelbrot {
    pub width: u32,
    pub height: u32,
    pub diverge_iterations: u32,
    pub diverge_threshold: i64,
}

impl Mandelbrot {
    /// A usable configuration: a non-empty viewport and a threshold
    /// within the representable range.
    pub open spec fn wf(self) -> bool {
        &&& 0 < self.width
        &&& 0 < self.height
        &&& iabs(self.diverge_threshold as int) <= THRESHOLD_LIMIT
    }

    pub fn new(width: u32, height: u32, diverge_iterations: u32, diverge_threshold: i64) -> (m:
        Mandelbrot)
        requires
            0 < width,
            0 < height,
            iabs(diverge_threshold as int) <= THRESHOLD_LIMIT,
        ensures
            m == (Mandelbrot { width, height, diverge_iterations, diverge_threshold }),
            m.wf(),
    {
        Mandelbrot { width, height, diverge_iterations, diverge_threshold }
    }

    /// Evaluates the pixel `(a, b)` of the default framing: the pixel is
    /// scaled into the classic view, real in [-1.5, 0.5) and imaginary
    /// in [-1.0, 1.0), and handed to the escape-time evaluator.
    pub fn calculage_diverge_number(&self, a: u32, b: u32) -> (r: Option<u32>)
        requires
            self.wf(),
            a < self.width,
            b < self.height,
        ensures
            r == spec_evaluate(
                scaled_ratio_spec(a as int, self.width as int) - PLANE_RE_SHIFT,
                scaled_ratio_spec(b as int, self.height as int) - PLANE_IM_SHIFT,
                self.diverge_iterations,
                self.diverge_threshold as int,
            ),
    {
        let c_re: i64 = scaled_ratio(a, self.width) - PLANE_RE_SHIFT;
        let c_im: i64 = scaled_ratio(b, self.height) - PLANE_IM_SHIFT;
        evaluate(c_re, c_im, self.diverge_iterations, self.diverge_threshold)
    }
}

} // verus!

//! Q31.32 fixed-point arithmetic for plane coordinates.
//!
//! A plane value is stored in an `i64` scaled by `SCALE` = 2^32: the
//! raw integer `r` stands for the plane value `r / 2^32`. Products are
//! scaled back down with truncation toward zero, mirroring the usual
//! fixed-point multiplication.

use vstd::prelude::*;
use vstd::arithmetic::div_mod::{
    lemma_div_is_ordered, lemma_div_multiples_vanish, lemma_div_of0, lemma_div_pos_is_pos,
    lemma_fundamental_div_mod, lemma_multiply_divide_lt,
};
use vstd::arithmetic::mul::{
    lemma_mul_inequality, lemma_mul_nonnegative, lemma_mul_upper_bound,
};

verus! {

/// Raw units per plane unit: coordinates are `i64` values scaled by 2^32.
pub const SCALE: i64 = 0x1_0000_0000;

/// Absolute value of a mathematical integer.
pub open spec fn iabs(a: int) -> int {
    if a < 0 { -a } else { a }
}

/// The product of two fixed-point values: magnitudes are multiplied and
/// scaled back down by `SCALE`, truncating toward zero.
pub open spec fn fix_mul_spec(a: int, b: int) -> int {
    let m = (iabs(a) * iabs(b)) / (SCALE as int);
    if (a < 0) != (b < 0) {
        -m
    } else {
        m
    }
}

/// The quotient of two fixed-point values, truncated toward zero.
pub open spec fn fix_div_spec(a: int, b: int) -> int
    recommends
        b != 0,
{
    let m = (iabs(a) * (SCALE as int)) / iabs(b);
    if (a < 0) != (b < 0) {
        -m
    } else {
        m
    }
}

/// Zero times anything is zero, also in fixed point.
pub proof fn lemma_fix_mul_zero()
    ensures
        fix_mul_spec(0, 0) == 0,
{
    assert(iabs(0) == 0);
    assert(iabs(0) * iabs(0) == 0);
    lemma_div_of0(SCALE as int);
}

/// The scaled-down magnitude product is the magnitude of the product.
pub proof fn lemma_fix_mul_abs(a: int, b: int)
    ensures
        0 <= (iabs(a) * iabs(b)) / (SCALE as int),
        iabs(fix_mul_spec(a, b)) == (iabs(a) * iabs(b)) / (SCALE as int),
{
    lemma_mul_nonnegative(iabs(a), iabs(b));
    lemma_div_pos_is_pos(iabs(a) * iabs(b), SCALE as int);
}

/// Bounds on the factors bound the scaled product.
pub proof fn lemma_fix_mul_bound(a: int, b: int, bound_a: int, bound_b: int)
    requires
        iabs(a) <= bound_a,
        iabs(b) <= bound_b,
    ensures
        iabs(a) * iabs(b) <= bound_a * bound_b,
        iabs(fix_mul_spec(a, b)) <= (bound_a * bound_b) / (SCALE as int),
{
    lemma_mul_upper_bound(iabs(a), bound_a, iabs(b), bound_b);
    lemma_fix_mul_abs(a, b);
    lemma_div_is_ordered(iabs(a) * iabs(b), bound_a * bound_b, SCALE as int);
}

/// A nonnegative value whose square is at most `b * b` is at most `b`.
pub proof fn lemma_abs_sq_le(x: int, b: int)
    requires
        iabs(x) * iabs(x) <= b * b,
        0 <= b,
    ensures
        iabs(x) <= b,
{
    if iabs(x) > b {
        assert(iabs(x) * iabs(x) > b * b) by (nonlinear_arith)
            requires
                iabs(x) > b,
                b >= 0,
        ;
    }
}

/// A quotient bound turns into a bound on the dividend.
pub proof fn lemma_numerator_bound(x: int, d: int, q: int)
    requires
        0 <= x,
        0 < d,
        x / d <= q,
    ensures
        x <= q * d + d - 1,
{
    lemma_fundamental_div_mod(x, d);
    lemma_mul_inequality(x / d, q, d);
}

/// Multiplies two fixed-point values exactly as `fix_mul_spec` describes.
/// The magnitude product is capped at 2^92 so that the wide intermediate
/// product and the scaled result stay representable.
pub fn fix_mul(a: i64, b: i64) -> (r: i64)
    requires
        iabs(a as int) * iabs(b as int) <= 0x1000_0000_0000_0000_0000_0000,
    ensures
        r as int == fix_mul_spec(a as int, b as int),
{
    let negative = (a < 0) != (b < 0);
    let ma: u64 = if a < 0 {
        (-(a as i128)) as u64
    } else {
        a as u64
    };
    let mb: u64 = if b < 0 {
        (-(b as i128)) as u64
    } else {
        b as u64
    };
    proof {
        assert(ma as int == iabs(a as int));
        assert(mb as int == iabs(b as int));
    }
    let p: u128 = ((ma as u128) * (mb as u128)) / (SCALE as u128);
    proof {
        assert(p as int == (iabs(a as int) * iabs(b as int)) / (SCALE as int));
        lemma_div_is_ordered(
            iabs(a as int) * iabs(b as int),
            0x1000_0000_0000_0000_0000_0000,
            SCALE as int,
        );
        assert(0x1_0000_0000int * 0x1000_0000_0000_0000int == 0x1000_0000_0000_0000_0000_0000int);
        lemma_div_multiples_vanish(0x1000_0000_0000_0000int, 0x1_0000_0000int);
        assert(p <= 0x1000_0000_0000_0000int);
    }
    if negative {
        -(p as i64)
    } else {
        p as i64
    }
}

/// The fixed-point value of `2 * pixel / extent`, the position of a pixel
/// within its axis scaled to a plane range of width two.
pub open spec fn scaled_ratio_spec(pixel: int, extent: int) -> int
    recommends
        0 < extent,
{
    (2 * pixel * (SCALE as int)) / extent
}

/// Computes `scaled_ratio_spec` exactly; the result lies in `[0, 2 * SCALE)`.
pub fn scaled_ratio(pixel: u32, extent: u32) -> (r: i64)
    requires
        0 < extent,
        pixel < extent,
    ensures
        r as int == scaled_ratio_spec(pixel as int, extent as int),
        0 <= r < 2 * SCALE,
{
    let wide: u128 = (pixel as u128) * 0x2_0000_0000;
    let q: u128 = wide / (extent as u128);
    proof {
        assert(2 * (pixel as int) * (SCALE as int) < (extent as int) * (2 * (SCALE as int)))
            by (nonlinear_arith)
            requires
                pixel < extent,
                0 <= pixel,
                0 < SCALE,
        ;
        lemma_multiply_divide_lt(
            2 * (pixel as int) * (SCALE as int),
            extent as int,
            2 * (SCALE as int),
        );
        lemma_mul_nonnegative(2 * (pixel as int), SCALE as int);
        lemma_div_pos_is_pos(2 * (pixel as int) * (SCALE as int), extent as int);
    }
    q as i64
}

} // verus!

//! The world-space / screen-space transform pair.
//!
//! World axes are drawn along the two directions of the 2:1 isometric grid:
//! the world x axis points 26.565 degrees below the screen's x axis, the
//! world y axis is its mirror image. Both matrices are constants; the inverse
//! is the forward matrix inverted and rounded once, not derived per call.

use crate::fixed::{truncate, Fixed};
use crate::linear::{Mat2, Vec2};
use vstd::prelude::*;

verus! {

/// cos(26.565 degrees).
pub const AXIS_COS_RAW: i64 = 3841537250;

/// sin(26.565 degrees).
pub const AXIS_SIN_RAW: i64 = 1920764336;

/// 1 / (2 cos(26.565 degrees)), rounded from `AXIS_COS_RAW`.
pub const AXIS_INV_COS_RAW: i64 = 2400958636;

/// 1 / (2 sin(26.565 degrees)), rounded from `AXIS_SIN_RAW`.
pub const AXIS_INV_SIN_RAW: i64 = 4801927995;

/// One ten-thousandth, the tolerance of a round trip.
pub const TOLERANCE_RAW: i64 = 429496;

/// Largest magnitude of a component (524288.0) for which a round trip is
/// known to stay within the tolerance.
pub const ROUND_TRIP_RANGE_RAW: i64 = 0x8_0000_0000_0000;

/// The matrix whose columns are the screen-space images of the two world axes.
pub open spec fn axes_matrix() -> Mat2 {
    Mat2 {
        x_col: Vec2 { x: Fixed { raw: AXIS_COS_RAW }, y: Fixed { raw: (-AXIS_SIN_RAW) as i64 } },
        y_col: Vec2 { x: Fixed { raw: (-AXIS_COS_RAW) as i64 }, y: Fixed { raw: (-AXIS_SIN_RAW) as i64 } },
    }
}

/// The inverse of [`axes_matrix`].
pub open spec fn axes_inverse_matrix() -> Mat2 {
    Mat2 {
        x_col: Vec2 { x: Fixed { raw: AXIS_INV_COS_RAW }, y: Fixed { raw: (-AXIS_INV_COS_RAW) as i64 } },
        y_col: Vec2 { x: Fixed { raw: (-AXIS_INV_SIN_RAW) as i64 }, y: Fixed { raw: (-AXIS_INV_SIN_RAW) as i64 } },
    }
}

pub open spec fn spec_world_to_screen(input: Vec2) -> Vec2 {
    axes_matrix().spec_mul_vec2(input)
}

pub open spec fn spec_screen_to_world(input: Vec2) -> Vec2 {
    axes_inverse_matrix().spec_mul_vec2(input)
}

/// Both components of `a` are within one ten-thousandth of those of `b`.
pub open spec fn close(a: Vec2, b: Vec2) -> bool {
    &&& -TOLERANCE_RAW <= a.x@ - b.x@ <= TOLERANCE_RAW
    &&& -TOLERANCE_RAW <= a.y@ - b.y@ <= TOLERANCE_RAW
}

/// Both components of `v` lie between -524288.0 and 524288.0.
pub open spec fn in_round_trip_range(v: Vec2) -> bool {
    &&& -ROUND_TRIP_RANGE_RAW <= v.x@ <= ROUND_TRIP_RANGE_RAW
    &&& -ROUND_TRIP_RANGE_RAW <= v.y@ <= ROUND_TRIP_RANGE_RAW
}

pub fn axes() -> (m: Mat2)
    ensures
        m == axes_matrix(),
{
    Mat2 {
        x_col: Vec2 { x: Fixed { raw: AXIS_COS_RAW }, y: Fixed { raw: -AXIS_SIN_RAW } },
        y_col: Vec2 { x: Fixed { raw: -AXIS_COS_RAW }, y: Fixed { raw: -AXIS_SIN_RAW } },
    }
}

pub fn axes_inverse() -> (m: Mat2)
    ensures
        m == axes_inverse_matrix(),
{
    Mat2 {
        x_col: Vec2 { x: Fixed { raw: AXIS_INV_COS_RAW }, y: Fixed { raw: -AXIS_INV_COS_RAW } },
        y_col: Vec2 { x: Fixed { raw: -AXIS_INV_SIN_RAW }, y: Fixed { raw: -AXIS_INV_SIN_RAW } },
    }
}

#[must_use]
pub fn screen_to_world(input: Vec2) -> (r: Vec2)
    ensures
        r == spec_screen_to_world(input),
{
    axes_inverse().mul_vec2(input)
}

#[must_use]
pub fn world_to_screen(input: Vec2) -> (r: Vec2)
    ensures
        r == spec_world_to_screen(input),
{
    axes().mul_vec2(input)
}

/// The inverse constants are the forward constants inverted and rounded to
/// the nearest representable number: `2 * c * inv` differs from `1.0 * 1.0`
/// by at most `c`.
pub proof fn lemma_constants_are_inverse()
    ensures
        -AXIS_COS_RAW <= 2 * AXIS_COS_RAW * AXIS_INV_COS_RAW - 0x1_0000_0000_0000_0000 <= AXIS_COS_RAW,
        -AXIS_SIN_RAW <= 2 * AXIS_SIN_RAW * AXIS_INV_SIN_RAW - 0x1_0000_0000_0000_0000 <= AXIS_SIN_RAW,
{
}

/// A product with a constant of magnitude at most 2.0 does not saturate on
/// operands below 2^23, lies less than one unit from the exact product, and
/// is at most twice as large as the operand.
proof fn lemma_times_bounds(c: Fixed, x: Fixed)
    requires
        -0x2_0000_0000 <= c@ <= 0x2_0000_0000,
        -0x80_0000_0000_0000 <= x@ <= 0x80_0000_0000_0000,
    ensures
        c@ * x@ - 0x1_0000_0000 < 0x1_0000_0000 * c.spec_times(x)@ < c@ * x@ + 0x1_0000_0000,
        x@ >= 0 ==> -2 * x@ <= c.spec_times(x)@ <= 2 * x@,
        x@ <= 0 ==> 2 * x@ <= c.spec_times(x)@ <= -2 * x@,
{
    let p = c@ * x@;
    assert(x@ >= 0 ==> -0x2_0000_0000 * x@ <= p <= 0x2_0000_0000 * x@) by (nonlinear_arith)
        requires
            p == c@ * x@,
            -0x2_0000_0000 <= c@ <= 0x2_0000_0000,
    ;
    assert(x@ <= 0 ==> 0x2_0000_0000 * x@ <= p <= -0x2_0000_0000 * x@) by (nonlinear_arith)
        requires
            p == c@ * x@,
            -0x2_0000_0000 <= c@ <= 0x2_0000_0000,
    ;
    let q = truncate(p, 0x1_0000_0000);
    assert(p - 0x1_0000_0000 < 0x1_0000_0000 * q < p + 0x1_0000_0000);
}

/// What a matrix of constants does to a vector, spelled out with the bounds
/// of each of its four products.
proof fn lemma_mul_vec2_bounds(m: Mat2, v: Vec2)
    requires
        -0x2_0000_0000 <= m.x_col.x@ <= 0x2_0000_0000,
        -0x2_0000_0000 <= m.x_col.y@ <= 0x2_0000_0000,
        -0x2_0000_0000 <= m.y_col.x@ <= 0x2_0000_0000,
        -0x2_0000_0000 <= m.y_col.y@ <= 0x2_0000_0000,
        -0x80_0000_0000_0000 <= v.x@ <= 0x80_0000_0000_0000,
        -0x80_0000_0000_0000 <= v.y@ <= 0x80_0000_0000_0000,
    ensures
        ({
            let r = m.spec_mul_vec2(v);
            let xx = m.x_col.x.spec_times(v.x)@;
            let yx = m.y_col.x.spec_times(v.y)@;
            let xy = m.x_col.y.spec_times(v.x)@;
            let yy = m.y_col.y.spec_times(v.y)@;
            &&& r.x@ == xx + yx
            &&& r.y@ == xy + yy
            &&& m.x_col.x@ * v.x@ - 0x1_0000_0000 < 0x1_0000_0000 * xx < m.x_col.x@ * v.x@ + 0x1_0000_0000
            &&& m.y_col.x@ * v.y@ - 0x1_0000_0000 < 0x1_0000_0000 * yx < m.y_col.x@ * v.y@ + 0x1_0000_0000
            &&& m.x_col.y@ * v.x@ - 0x1_0000_0000 < 0x1_0000_0000 * xy < m.x_col.y@ * v.x@ + 0x1_0000_0000
            &&& m.y_col.y@ * v.y@ - 0x1_0000_0000 < 0x1_0000_0000 * yy < m.y_col.y@ * v.y@ + 0x1_0000_0000
            &&& in_round_trip_range(v) ==> {
                &&& -0x80_0000_0000_0000 <= r.x@ <= 0x80_0000_0000_0000
                &&& -0x80_0000_0000_0000 <= r.y@ <= 0x80_0000_0000_0000
            }
        }),
{
    lemma_times_bounds(m.x_col.x, v.x);
    lemma_times_bounds(m.y_col.x, v.y);
    lemma_times_bounds(m.x_col.y, v.x);
    lemma_times_bounds(m.y_col.y, v.y);
}

/// The four products of the forward matrix, with its entries written out.
proof fn lemma_axes_products(v: Vec2)
    ensures
        axes_matrix().x_col.x@ * v.x@ == 3841537250 * v.x@,
        axes_matrix().y_col.x@ * v.y@ == -3841537250 * v.y@,
        axes_matrix().x_col.y@ * v.x@ == -1920764336 * v.x@,
        axes_matrix().y_col.y@ * v.y@ == -1920764336 * v.y@,
{
}

/// The four products of the inverse matrix, with its entries written out.
proof fn lemma_axes_inverse_products(v: Vec2)
    ensures
        axes_inverse_matrix().x_col.x@ * v.x@ == 2400958636 * v.x@,
        axes_inverse_matrix().y_col.x@ * v.y@ == -4801927995 * v.y@,
        axes_inverse_matrix().x_col.y@ * v.x@ == -2400958636 * v.x@,
        axes_inverse_matrix().y_col.y@ * v.y@ == -4801927995 * v.y@,
{
}

/// The arithmetic of a round trip that starts with the forward matrix, over
/// the eight rounded products it takes.
proof fn lemma_forward_then_inverse(
    vx: int, vy: int, a: int, b: int, c: int, d: int, p: int, q: int, r: int, t: int,
)
    requires
        -0x8_0000_0000_0000 <= vx <= 0x8_0000_0000_0000,
        -0x8_0000_0000_0000 <= vy <= 0x8_0000_0000_0000,
        3841537250 * vx - 0x1_0000_0000 < 0x1_0000_0000 * a < 3841537250 * vx + 0x1_0000_0000,
        -3841537250 * vy - 0x1_0000_0000 < 0x1_0000_0000 * b < -3841537250 * vy + 0x1_0000_0000,
        -1920764336 * vx - 0x1_0000_0000 < 0x1_0000_0000 * c < -1920764336 * vx + 0x1_0000_0000,
        -1920764336 * vy - 0x1_0000_0000 < 0x1_0000_0000 * d < -1920764336 * vy + 0x1_0000_0000,
        2400958636 * (a + b) - 0x1_0000_0000 < 0x1_0000_0000 * p < 2400958636 * (a + b) + 0x1_0000_0000,
        -4801927995 * (c + d) - 0x1_0000_0000 < 0x1_0000_0000 * q < -4801927995 * (c + d) + 0x1_0000_0000,
        -2400958636 * (a + b) - 0x1_0000_0000 < 0x1_0000_0000 * r < -2400958636 * (a + b) + 0x1_0000_0000,
        -4801927995 * (c + d) - 0x1_0000_0000 < 0x1_0000_0000 * t < -4801927995 * (c + d) + 0x1_0000_0000,
    ensures
        -429496 <= p + q - vx <= 429496,
        -429496 <= r + t - vy <= 429496,
{
}

/// The arithmetic of a round trip that starts with the inverse matrix.
proof fn lemma_inverse_then_forward(
    vx: int, vy: int, a: int, b: int, c: int, d: int, p: int, q: int, r: int, t: int,
)
    requires
        -0x8_0000_0000_0000 <= vx <= 0x8_0000_0000_0000,
        -0x8_0000_0000_0000 <= vy <= 0x8_0000_0000_0000,
        2400958636 * vx - 0x1_0000_0000 < 0x1_0000_0000 * a < 2400958636 * vx + 0x1_0000_0000,
        -4801927995 * vy - 0x1_0000_0000 < 0x1_0000_0000 * b < -4801927995 * vy + 0x1_0000_0000,
        -2400958636 * vx - 0x1_0000_0000 < 0x1_0000_0000 * c < -2400958636 * vx + 0x1_0000_0000,
        -4801927995 * vy - 0x1_0000_0000 < 0x1_0000_0000 * d < -4801927995 * vy + 0x1_0000_0000,
        3841537250 * (a + b) - 0x1_0000_0000 < 0x1_0000_0000 * p < 3841537250 * (a + b) + 0x1_0000_0000,
        -3841537250 * (c + d) - 0x1_0000_0000 < 0x1_0000_0000 * q < -3841537250 * (c + d) + 0x1_0000_0000,
        -1920764336 * (a + b) - 0x1_0000_0000 < 0x1_0000_0000 * r < -1920764336 * (a + b) + 0x1_0000_0000,
        -1920764336 * (c + d) - 0x1_0000_0000 < 0x1_0000_0000 * t < -1920764336 * (c + d) + 0x1_0000_0000,
    ensures
        -429496 <= p + q - vx <= 429496,
        -429496 <= r + t - vy <= 429496,
{
}

/// Taking a world-space vector to the screen and back reproduces it within
/// one ten-thousandth, for every vector in the round-trip range.
pub proof fn lemma_world_screen_world(v: Vec2)
    requires
        in_round_trip_range(v),
    ensures
        close(spec_screen_to_world(spec_world_to_screen(v)), v),
{
    let fwd = axes_matrix();
    let inv = axes_inverse_matrix();
    let s = spec_world_to_screen(v);
    let a = fwd.x_col.x.spec_times(v.x)@;
    let b = fwd.y_col.x.spec_times(v.y)@;
    let c = fwd.x_col.y.spec_times(v.x)@;
    let d = fwd.y_col.y.spec_times(v.y)@;
    lemma_mul_vec2_bounds(fwd, v);
    lemma_axes_products(v);
    lemma_mul_vec2_bounds(inv, s);
    lemma_axes_inverse_products(s);
    lemma_forward_then_inverse(
        v.x@, v.y@, a, b, c, d,
        inv.x_col.x.spec_times(s.x)@,
        inv.y_col.x.spec_times(s.y)@,
        inv.x_col.y.spec_times(s.x)@,
        inv.y_col.y.spec_times(s.y)@,
    );
}

/// Taking a screen-space vector to the world and back reproduces it within
/// one ten-thousandth, for every vector in the round-trip range.
pub proof fn lemma_screen_world_screen(v: Vec2)
    requires
        in_round_trip_range(v),
    ensures
        close(spec_world_to_screen(spec_screen_to_world(v)), v),
{
    let fwd = axes_matrix();
    let inv = axes_inverse_matrix();
    let w = spec_screen_to_world(v);
    let a = inv.x_col.x.spec_times(v.x)@;
    let b = inv.y_col.x.spec_times(v.y)@;
    let c = inv.x_col.y.spec_times(v.x)@;
    let d = inv.y_col.y.spec_times(v.y)@;
    lemma_mul_vec2_bounds(inv, v);
    lemma_axes_inverse_products(v);
    lemma_mul_vec2_bounds(fwd, w);
    lemma_axes_products(w);
    lemma_inverse_then_forward(
        v.x@, v.y@, a, b, c, d,
        fwd.x_col.x.spec_times(w.x)@,
        fwd.y_col.x.spec_times(w.y)@,
        fwd.x_col.y.spec_times(w.x)@,
        fwd.y_col.y.spec_times(w.y)@,
    );
}

} // verus!

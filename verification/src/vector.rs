//! Two-dimensional fixed-point vectors and the camera rotation.
//!
//! A rotation is given by the fixed-point cosine and sine of its angle,
//! `c` and `s`, both scaled by `SCALE`. Applying it forms the four products
//! of the rotation matrix at product scale and rescales each coordinate
//! once, rounding toward zero; the algebraic laws below hold of the exact
//! product-scale rotation, before that single rounding.

use vstd::prelude::*;

use crate::fixed::COORD_LIMIT;
use crate::fixed::SCALE;
use crate::fixed::div_scale;
use crate::fixed::div_trunc;
use crate::fixed::lemma_mul_bounds;

verus! {

/// A 2D vector with fixed-point coordinates (multiples of `1/SCALE`).
#[derive(Clone, Copy, PartialEq, Eq, Structural, Debug)]
pub struct Vector2 {
    pub x: i64,
    pub y: i64,
}

/// First coordinate of `(x, y)` rotated by the angle whose cosine and sine
/// are `c` and `s`, at product scale: the exact value is `SCALE` times the
/// rotated fixed-point coordinate when `c` and `s` carry scale `SCALE`.
pub open spec fn rot_x(x: int, y: int, c: int, s: int) -> int {
    x * c - y * s
}

/// Second coordinate of the rotation, at product scale.
pub open spec fn rot_y(x: int, y: int, c: int, s: int) -> int {
    x * s + y * c
}

/// The rotated vector with both coordinates rescaled back to fixed point,
/// rounding toward zero.
pub open spec fn rotate_spec(v: Vector2, c: int, s: int) -> (int, int) {
    (
        div_trunc(rot_x(v.x as int, v.y as int, c, s), SCALE as int),
        div_trunc(rot_y(v.x as int, v.y as int, c, s), SCALE as int),
    )
}

proof fn lemma_expand_product_of_sums(aa: int, bb: int, mm: int, nn: int)
    by (nonlinear_arith)
    ensures
        (aa + bb) * (mm + nn) == aa * mm + aa * nn + bb * mm + bb * nn,
{
}

/// Rotation is norm-preserving: the squared norm of the product-scale
/// rotation of `(x, y)` is the squared norm of `(x, y)` times
/// `c * c + s * s`, so coefficients with `c * c + s * s == SCALE * SCALE`
/// scale every length by exactly `SCALE` — one rescaling step returns the
/// original length.
pub proof fn lemma_rotation_preserves_norm(x: int, y: int, c: int, s: int)
    ensures
        rot_x(x, y, c, s) * rot_x(x, y, c, s) + rot_y(x, y, c, s) * rot_y(x, y, c, s) == (c * c + s
            * s) * (x * x + y * y),
{
    let a = x * c;
    let b = y * s;
    let d = x * s;
    let e = y * c;
    assert((a - b) * (a - b) == a * a - 2 * (a * b) + b * b) by (nonlinear_arith);
    assert((d + e) * (d + e) == d * d + 2 * (d * e) + e * e) by (nonlinear_arith);
    assert((x * c) * (x * c) == (c * c) * (x * x)) by (nonlinear_arith);
    assert((y * s) * (y * s) == (s * s) * (y * y)) by (nonlinear_arith);
    assert((x * s) * (x * s) == (s * s) * (x * x)) by (nonlinear_arith);
    assert((y * c) * (y * c) == (c * c) * (y * y)) by (nonlinear_arith);
    assert((x * c) * (y * s) == (x * s) * (y * c)) by (nonlinear_arith);
    lemma_expand_product_of_sums(c * c, s * s, x * x, y * y);
}

/// Rotations compose by the angle-sum formula: rotating `(x, y)` by
/// `(c1, s1)` and then by `(c2, s2)` gives the single rotation by
/// `(c1 * c2 - s1 * s2, s1 * c2 + c1 * s2)`, exactly, at product scale.
pub proof fn lemma_rotation_composes(x: int, y: int, c1: int, s1: int, c2: int, s2: int)
    ensures
        rot_x(rot_x(x, y, c1, s1), rot_y(x, y, c1, s1), c2, s2) == rot_x(
            x,
            y,
            c1 * c2 - s1 * s2,
            s1 * c2 + c1 * s2,
        ),
        rot_y(rot_x(x, y, c1, s1), rot_y(x, y, c1, s1), c2, s2) == rot_y(
            x,
            y,
            c1 * c2 - s1 * s2,
            s1 * c2 + c1 * s2,
        ),
{
    let a = x * c1;
    let b = y * s1;
    let d = x * s1;
    let e = y * c1;
    assert((a - b) * c2 == a * c2 - b * c2) by (nonlinear_arith);
    assert((d + e) * s2 == d * s2 + e * s2) by (nonlinear_arith);
    assert((a - b) * s2 == a * s2 - b * s2) by (nonlinear_arith);
    assert((d + e) * c2 == d * c2 + e * c2) by (nonlinear_arith);
    assert((x * c1) * c2 == x * (c1 * c2)) by (nonlinear_arith);
    assert((y * s1) * c2 == y * (s1 * c2)) by (nonlinear_arith);
    assert((x * s1) * s2 == x * (s1 * s2)) by (nonlinear_arith);
    assert((y * c1) * s2 == y * (c1 * s2)) by (nonlinear_arith);
    assert((x * c1) * s2 == x * (c1 * s2)) by (nonlinear_arith);
    assert((y * s1) * s2 == y * (s1 * s2)) by (nonlinear_arith);
    assert((x * s1) * c2 == x * (s1 * c2)) by (nonlinear_arith);
    assert((y * c1) * c2 == y * (c1 * c2)) by (nonlinear_arith);
    assert(x * (c1 * c2 - s1 * s2) == x * (c1 * c2) - x * (s1 * s2)) by (nonlinear_arith);
    assert(y * (s1 * c2 + c1 * s2) == y * (s1 * c2) + y * (c1 * s2)) by (nonlinear_arith);
    assert(x * (s1 * c2 + c1 * s2) == x * (s1 * c2) + x * (c1 * s2)) by (nonlinear_arith);
    assert(y * (c1 * c2 - s1 * s2) == y * (c1 * c2) - y * (s1 * s2)) by (nonlinear_arith);
}

/// Applies the rotation with fixed-point coefficients `(c, s)` to `v`,
/// computing all four matrix products from the pre-rotation coordinates
/// before either coordinate is overwritten.
pub fn rotate(v: Vector2, c: i64, s: i64) -> (r: Vector2)
    requires
        -COORD_LIMIT <= v.x <= COORD_LIMIT,
        -COORD_LIMIT <= v.y <= COORD_LIMIT,
        -SCALE <= c <= SCALE,
        -SCALE <= s <= SCALE,
    ensures
        r.x == rotate_spec(v, c as int, s as int).0,
        r.y == rotate_spec(v, c as int, s as int).1,
{
    proof {
        lemma_mul_bounds(v.x as int, c as int, COORD_LIMIT as int, SCALE as int);
        lemma_mul_bounds(v.x as int, s as int, COORD_LIMIT as int, SCALE as int);
        lemma_mul_bounds(v.y as int, c as int, COORD_LIMIT as int, SCALE as int);
        lemma_mul_bounds(v.y as int, s as int, COORD_LIMIT as int, SCALE as int);
    }
    let xc: i64 = v.x * c;
    let xs: i64 = v.x * s;
    let yc: i64 = v.y * c;
    let ys: i64 = v.y * s;
    Vector2 { x: div_scale(xc - ys), y: div_scale(xs + yc) }
}

} // verus!

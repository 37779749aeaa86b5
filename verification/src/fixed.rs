//! Fixed-point arithmetic used throughout the engine.
//!
//! World coordinates, direction components, distances and rotation
//! coefficients are all stored as signed multiples of `1/SCALE`, so a value
//! of `SCALE` stands for one world unit.

use vstd::prelude::*;

verus! {

/// Number of fixed-point units in one world unit.
pub const SCALE: i64 = 65536;

/// Magnitude bound on camera direction and plane components and on movement
/// factors; keeps every product taken inside the engine within `i64`.
pub const COORD_LIMIT: i64 = 0x4000_0000;

/// Magnitude bound on camera position coordinates; far beyond any map, yet
/// small enough that a translation step can never overflow.
pub const POS_LIMIT: i64 = 0x1000_0000_0000;

/// Division of `a` by `b` rounding toward zero, for `b > 0`: the rounding
/// machine integer division performs.
pub open spec fn div_trunc(a: int, b: int) -> int
    recommends
        b > 0,
{
    if a >= 0 {
        a / b
    } else {
        -((-a) / b)
    }
}

/// Rescales a value at product scale (the product of two fixed-point
/// values) back to fixed point, rounding toward zero.
pub fn div_scale(p: i64) -> (r: i64)
    requires
        -0x7fff_ffff_ffff_ffff <= p,
    ensures
        r == div_trunc(p as int, SCALE as int),
{
    if p >= 0 {
        ((p as u64) / (SCALE as u64)) as i64
    } else {
        let q: u64 = ((-p) as u64) / (SCALE as u64);
        -(q as i64)
    }
}

/// Truncating division by a positive divisor rounds away strictly less
/// than one divisor: `b * div_trunc(a, b)` differs from `a` by less than
/// `b`. Rescaling a product-scale rotation back to fixed point therefore
/// moves each coordinate less than one fixed-point unit away from the
/// exact, norm-preserving rotation.
pub proof fn lemma_div_trunc_error(a: int, b: int)
    requires
        b > 0,
    ensures
        -b < a - b * div_trunc(a, b) < b,
{
    if a >= 0 {
        vstd::arithmetic::div_mod::lemma_fundamental_div_mod(a, b);
        vstd::arithmetic::div_mod::lemma_mod_division_less_than_divisor(a, b);
    } else {
        vstd::arithmetic::div_mod::lemma_fundamental_div_mod(-a, b);
        vstd::arithmetic::div_mod::lemma_mod_division_less_than_divisor(-a, b);
        let q = (-a) / b;
        assert(b * (-q) == -(b * q)) by (nonlinear_arith);
    }
}

/// A product is bounded by the product of the factors' bounds.
pub proof fn lemma_mul_bounds(a: int, b: int, ab: int, bb: int)
    by (nonlinear_arith)
    requires
        -ab <= a <= ab,
        -bb <= b <= bb,
        0 <= ab,
        0 <= bb,
    ensures
        -(ab * bb) <= a * b <= ab * bb,
{
}

} // verus!

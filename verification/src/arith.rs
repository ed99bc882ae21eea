//! Small integer helpers shared by the placement algorithms: division that
//! truncates toward zero (the rounding the reference grid arithmetic uses)
//! and the squared-distance test against a query radius.

use vstd::prelude::*;
use vstd::arithmetic::div_mod::{lemma_div_is_ordered, lemma_div_pos_is_pos};

verus! {

/// Division truncating toward zero, the rounding of the reference grid
/// arithmetic; `/` on `int` rounds toward negative infinity instead.
pub open spec fn div_trunc_spec(a: int, b: int) -> int
    recommends
        b >= 1,
{
    if a >= 0 {
        a / b
    } else {
        -((-a) / b)
    }
}

/// Whether the point `(x, z)` lies within `radius` of `(cx, cz)`, compared by
/// squared Euclidean distance so the boundary is exact.
pub open spec fn in_radius(x: int, z: int, cx: int, cz: int, radius: int) -> bool {
    (x - cx) * (x - cx) + (z - cz) * (z - cz) <= radius * radius
}

/// Division of `i64` values truncating toward zero.
pub fn div_trunc(a: i64, b: i64) -> (q: i64)
    requires
        b >= 1,
        a > i64::MIN,
    ensures
        q == div_trunc_spec(a as int, b as int),
{
    if a >= 0 {
        let q_wide: u64 = (a as u64) / (b as u64);
        proof {
            assert((a as int) / (b as int) <= a as int) by (nonlinear_arith)
                requires
                    a >= 0,
                    b >= 1,
            ;
            assert((a as int) / (b as int) >= 0) by (nonlinear_arith)
                requires
                    a >= 0,
                    b >= 1,
            ;
        }
        q_wide as i64
    } else {
        let m: i64 = -a;
        let q_wide: u64 = (m as u64) / (b as u64);
        proof {
            assert((m as int) / (b as int) <= m as int) by (nonlinear_arith)
                requires
                    m >= 0,
                    b >= 1,
            ;
            assert((m as int) / (b as int) >= 0) by (nonlinear_arith)
                requires
                    m >= 0,
                    b >= 1,
            ;
        }
        -(q_wide as i64)
    }
}

/// A dividend of magnitude at most `m` has a quotient of magnitude at most
/// `m / b`.
pub proof fn lemma_div_trunc_small(a: int, b: int, m: int)
    requires
        b >= 1,
        0 <= m,
        -m <= a <= m,
    ensures
        -(m / b) <= div_trunc_spec(a, b) <= m / b,
{
    lemma_div_pos_is_pos(m, b);
    if a >= 0 {
        lemma_div_is_ordered(a, m, b);
        lemma_div_pos_is_pos(a, b);
    } else {
        lemma_div_is_ordered(-a, m, b);
        lemma_div_pos_is_pos(-a, b);
    }
}

/// Truncating division is monotone in the dividend.
pub proof fn lemma_div_trunc_monotone(a: int, b: int, d: int)
    requires
        a <= b,
        d >= 1,
    ensures
        div_trunc_spec(a, d) <= div_trunc_spec(b, d),
{
    if a >= 0 {
        lemma_div_is_ordered(a, b, d);
    } else if b < 0 {
        lemma_div_is_ordered(-b, -a, d);
    } else {
        lemma_div_pos_is_pos(-a, d);
        lemma_div_pos_is_pos(b, d);
    }
}

/// Multiplying a truncated quotient back by the divisor lands within one
/// divisor of the dividend on either side.
pub proof fn lemma_div_trunc_close(a: int, b: int)
    requires
        b >= 1,
    ensures
        a - b < div_trunc_spec(a, b) * b < a + b,
{
    if a >= 0 {
        assert(a - b < (a / b) * b <= a) by (nonlinear_arith)
            requires
                a >= 0,
                b >= 1,
        ;
    } else {
        assert((-a) - b < ((-a) / b) * b <= -a) by (nonlinear_arith)
            requires
                -a >= 0,
                b >= 1,
        ;
        assert((-((-a) / b)) * b == -(((-a) / b) * b)) by (nonlinear_arith);
    }
}

/// Squared Euclidean distance between two points whose per-axis differences
/// fit in 32 bits.
pub fn dist_sq(x: i64, z: i64, cx: i64, cz: i64) -> (d: i64)
    requires
        -2147483647 <= x - cx <= 2147483647,
        -2147483647 <= z - cz <= 2147483647,
    ensures
        d == (x - cx) * (x - cx) + (z - cz) * (z - cz),
{
    let dx = x - cx;
    let dz = z - cz;
    proof {
        assert(0 <= dx * dx <= 2147483647 * 2147483647) by (nonlinear_arith)
            requires
                -2147483647 <= dx <= 2147483647,
        ;
        assert(0 <= dz * dz <= 2147483647 * 2147483647) by (nonlinear_arith)
            requires
                -2147483647 <= dz <= 2147483647,
        ;
    }
    dx * dx + dz * dz
}

/// A squared magnitude below a squared non-negative bound pins the magnitude
/// itself below the bound.
pub proof fn lemma_magnitude_from_square(dx: int, dz: int, r: int)
    requires
        r >= 0,
        dx * dx + dz * dz <= r * r,
    ensures
        -r <= dx <= r,
        -r <= dz <= r,
{
    assert(-r <= dx <= r && -r <= dz <= r) by (nonlinear_arith)
        requires
            r >= 0,
            dx * dx + dz * dz <= r * r,
    ;
}

} // verus!

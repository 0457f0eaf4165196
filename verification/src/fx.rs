//! Fixed-point scalars and 2-vectors.
//!
//! A scalar is an `i64` counting ten-thousandths of a unit: `FX_ONE` raw is
//! 1.0 unit. Division truncates toward zero, like Rust's integer division.

use vstd::prelude::*;
use vstd::arithmetic::div_mod::{
    lemma_div_is_ordered, lemma_div_multiples_vanish, lemma_div_pos_is_pos,
};

verus! {

/// One whole unit, in raw fixed-point steps.
pub const FX_ONE: i64 = 10_000;

/// Largest magnitude a stored coordinate (camera position, tile geometry)
/// may take: 100,000 units. Mutations saturate here so that every sequence
/// of operations stays within machine range.
pub const GEOM_LIMIT: i64 = 1_000_000_000;

/// Truncating division on mathematical integers: the quotient of the
/// magnitudes, negated when the signs of the operands differ.
pub open spec fn div_trunc_spec(a: int, b: int) -> int {
    let q = abs_spec(a) / abs_spec(b);
    if (a < 0) == (b < 0) {
        q
    } else {
        -q
    }
}

pub open spec fn abs_spec(a: int) -> int {
    if a < 0 {
        -a
    } else {
        a
    }
}

/// Clamping on mathematical integers.
pub open spec fn clamp_spec(v: int, lo: int, hi: int) -> int {
    if v < lo {
        lo
    } else if v > hi {
        hi
    } else {
        v
    }
}

/// Truncating division, computed on unsigned magnitudes.
pub fn div_trunc(a: i64, b: i64) -> (r: i64)
    requires
        b != 0,
        a != i64::MIN,
        b != i64::MIN,
    ensures
        r == div_trunc_spec(a as int, b as int),
{
    let ua: u64 = if a < 0 {
        (-a) as u64
    } else {
        a as u64
    };
    let ub: u64 = if b < 0 {
        (-b) as u64
    } else {
        b as u64
    };
    let q: u64 = ua / ub;
    proof {
        lemma_div_is_ordered(q as int, ua as int, 1);
        assert(q <= ua) by {
            lemma_div_is_ordered_by_denominator_pos(ua as int, ub as int);
        }
    }
    if (a < 0) != (b < 0) {
        -(q as i64)
    } else {
        q as i64
    }
}

/// A quotient never exceeds its dividend when the divisor is at least one.
proof fn lemma_div_is_ordered_by_denominator_pos(a: int, b: int)
    requires
        0 <= a,
        1 <= b,
    ensures
        a / b <= a,
    decreases b,
{
    if b == 1 {
        assert(a / 1 == a) by {
            lemma_div_multiples_vanish(a, 1);
        }
    } else {
        vstd::arithmetic::div_mod::lemma_div_is_ordered_by_denominator(a, b - 1, b);
        lemma_div_is_ordered_by_denominator_pos(a, b - 1);
    }
}

/// Dividing an exact multiple recovers the factor.
pub proof fn lemma_div_trunc_exact(q: int, b: int)
    requires
        b > 0,
    ensures
        div_trunc_spec(q * b, b) == q,
{
    if q >= 0 {
        assert(q * b >= 0) by (nonlinear_arith)
            requires
                q >= 0,
                b > 0,
        ;
        lemma_div_multiples_vanish(q, b);
        assert(b * q == q * b);
        assert(abs_spec(q * b) / abs_spec(b) == q);
    } else {
        assert(q * b < 0) by (nonlinear_arith)
            requires
                q < 0,
                b > 0,
        ;
        lemma_div_multiples_vanish(-q, b);
        assert(b * -q == -(q * b)) by (nonlinear_arith);
        assert(abs_spec(q * b) / abs_spec(b) == -q);
    }
}

/// When the divisor divides the dividend, truncating division agrees with
/// exact division.
pub proof fn lemma_div_trunc_of_multiple(a: int, b: int)
    requires
        b > 0,
        a % b == 0,
    ensures
        div_trunc_spec(a, b) == a / b,
        b * (a / b) == a,
        (a / b) * b == a,
{
    vstd::arithmetic::div_mod::lemma_fundamental_div_mod(a, b);
    assert(b * (a / b) == a);
    assert((a / b) * b == b * (a / b)) by (nonlinear_arith);
    lemma_div_trunc_exact(a / b, b);
}

/// Negating the dividend negates the truncated quotient.
pub proof fn lemma_div_trunc_neg(a: int, b: int)
    requires
        b != 0,
    ensures
        div_trunc_spec(-a, b) == -div_trunc_spec(a, b),
{
}

/// The magnitude of a truncated quotient is the quotient of the magnitudes,
/// so it is monotone in the dividend's magnitude.
pub proof fn lemma_div_trunc_bound(a: int, b: int, m: int)
    requires
        b > 0,
        abs_spec(a) <= m,
    ensures
        abs_spec(div_trunc_spec(a, b)) <= m / b,
        abs_spec(div_trunc_spec(a, b)) <= m,
{
    lemma_div_pos_is_pos(abs_spec(a), b);
    lemma_div_is_ordered(abs_spec(a), m, b);
    lemma_div_is_ordered_by_denominator_pos(m, b);
}

/// A truncated quotient is bounded by `t` whenever the dividend's magnitude
/// is at most `t` times the divisor.
pub proof fn lemma_div_trunc_le(a: int, b: int, t: int)
    requires
        b > 0,
        abs_spec(a) <= t * b,
    ensures
        abs_spec(div_trunc_spec(a, b)) <= t,
{
    assert(t >= 0) by (nonlinear_arith)
        requires
            b > 0,
            t * b >= 0,
    ;
    lemma_div_pos_is_pos(abs_spec(a), b);
    lemma_div_is_ordered(abs_spec(a), t * b, b);
    lemma_div_multiples_vanish(t, b);
    assert(b * t == t * b) by (nonlinear_arith);
    assert((t * b) / b == t);
    assert(abs_spec(a) / b <= t);
    assert(abs_spec(div_trunc_spec(a, b)) == abs_spec(a) / abs_spec(b));
}

/// The magnitude of a product is bounded by the product of bounds.
pub proof fn lemma_mul_abs_bound(a: int, b: int, ma: int, mb: int)
    requires
        abs_spec(a) <= ma,
        abs_spec(b) <= mb,
    ensures
        abs_spec(a * b) <= ma * mb,
{
    assert(abs_spec(a * b) <= ma * mb) by (nonlinear_arith)
        requires
            abs_spec(a) <= ma,
            abs_spec(b) <= mb,
    ;
}

/// Clamp a scalar into `[lo, hi]`.
pub fn clamp_i64(v: i64, lo: i64, hi: i64) -> (r: i64)
    requires
        lo <= hi,
    ensures
        r == clamp_spec(v as int, lo as int, hi as int),
        lo <= r <= hi,
{
    if v < lo {
        lo
    } else if v > hi {
        hi
    } else {
        v
    }
}

/// A 2-vector of fixed-point scalars: positions, sizes and deltas in world
/// or screen space.
#[derive(Clone, Copy, PartialEq, Eq, Structural, Debug)]
pub struct Fx2 {
    pub x: i64,
    pub y: i64,
}

impl Fx2 {
    pub fn new(x: i64, y: i64) -> (r: Fx2)
        ensures
            r.x == x,
            r.y == y,
    {
        Fx2 { x, y }
    }

    /// Both components bounded in magnitude by `m`.
    pub open spec fn bounded(self, m: int) -> bool {
        abs_spec(self.x as int) <= m && abs_spec(self.y as int) <= m
    }
}

} // verus!

//! Angles in microradians.
//!
//! A full turn is `TAU_URAD` microradians; every stored rotation is kept in
//! `[0, TAU_URAD)`. Sine and cosine are computed at fixed point with
//! Bhaskara's rational approximation, which is exact at the quarter turns.

use vstd::prelude::*;
use vstd::arithmetic::div_mod::{
    lemma_div_is_ordered, lemma_div_multiples_vanish, lemma_div_pos_is_pos,
    lemma_fundamental_div_mod, lemma_fundamental_div_mod_converse,
};
use crate::fx::{div_trunc, div_trunc_spec, abs_spec, FX_ONE};

verus! {

/// Half a turn (pi), in microradians. Chosen even, so that a quarter turn
/// is a whole number of microradians.
pub const PI_URAD: i64 = 3_141_592;

/// A full turn: two half turns exactly.
pub const TAU_URAD: i64 = 6_283_184;

/// A quarter turn: half of `PI_URAD` exactly.
pub const QUARTER_URAD: i64 = 1_570_796;

/// Euclidean remainder of an angle by a full turn: always in `[0, TAU_URAD)`.
pub open spec fn norm_angle_spec(a: int) -> int {
    a % (TAU_URAD as int)
}

/// Normalize an angle into `[0, TAU_URAD)`.
pub fn norm_angle(a: i64) -> (r: i64)
    requires
        a != i64::MIN,
    ensures
        r == norm_angle_spec(a as int),
        0 <= r < TAU_URAD,
{
    let tau: u64 = TAU_URAD as u64;
    if a >= 0 {
        let m = (a as u64) % tau;
        proof {
            lemma_fundamental_div_mod(a as int, TAU_URAD as int);
        }
        m as i64
    } else {
        let m = ((-a) as u64) % tau;
        proof {
            let x = -(a as int);
            let t = TAU_URAD as int;
            lemma_fundamental_div_mod(x, t);
            let q = x / t;
            let mm = x % t;
            if mm == 0 {
                lemma_fundamental_div_mod_converse(a as int, t, -q, 0);
            } else {
                assert(a as int == (-q - 1) * t + (t - mm)) by (nonlinear_arith)
                    requires
                        x == q * t + mm,
                        a as int == -x,
                ;
                lemma_fundamental_div_mod_converse(a as int, t, -q - 1, t - mm);
            }
        }
        if m == 0 {
            0
        } else {
            (tau - m) as i64
        }
    }
}

/// Bhaskara's approximation of `sin` on `[0, PI_URAD]`, scaled to `FX_ONE`.
pub open spec fn bhaskara_spec(x: int) -> int {
    let p = x * (PI_URAD - x);
    div_trunc_spec(16 * p * (FX_ONE as int), 5 * (PI_URAD as int) * (PI_URAD as int) - 4 * p)
}

/// Fixed-point sine of a normalized angle.
pub open spec fn sin_fx_spec(a: int) -> int {
    if a <= PI_URAD {
        bhaskara_spec(a)
    } else {
        -bhaskara_spec(a - PI_URAD)
    }
}

/// Fixed-point cosine of a normalized angle: sine shifted by a quarter turn.
pub open spec fn cos_fx_spec(a: int) -> int {
    sin_fx_spec((a + QUARTER_URAD) % (TAU_URAD as int))
}

/// The product `x * (PI_URAD - x)` stays within `[0, QUARTER^2]` on the half
/// turn, which bounds every intermediate of the approximation.
proof fn lemma_arch_bounds(x: int)
    requires
        0 <= x <= PI_URAD,
    ensures
        0 <= x * (PI_URAD - x),
        x * (PI_URAD - x) <= (QUARTER_URAD as int) * (QUARTER_URAD as int),
{
    let q = QUARTER_URAD as int;
    assert(0 <= x * (PI_URAD - x)) by (nonlinear_arith)
        requires
            0 <= x <= PI_URAD,
    ;
    assert(x * (PI_URAD - x) <= q * q) by (nonlinear_arith)
        requires
            PI_URAD == 2 * q,
            0 <= x,
    ;
}

fn bhaskara(x: i64) -> (r: i64)
    requires
        0 <= x <= PI_URAD,
    ensures
        r == bhaskara_spec(x as int),
        0 <= r <= FX_ONE,
{
    proof {
        lemma_arch_bounds(x as int);
    }
    let p: i64 = x * (PI_URAD - x);
    let num: i64 = 16 * p * FX_ONE;
    let den: i64 = 5 * PI_URAD * PI_URAD - 4 * p;
    let r = div_trunc(num, den);
    proof {
        lemma_div_pos_is_pos(num as int, den as int);
        lemma_div_multiples_vanish(FX_ONE as int, den as int);
        lemma_div_is_ordered(num as int, den as int * FX_ONE, den as int);
    }
    r
}

/// Fixed-point sine; the result is scaled so that `FX_ONE` is 1.0.
pub fn sin_fx(a: i64) -> (r: i64)
    requires
        0 <= a < TAU_URAD,
    ensures
        r == sin_fx_spec(a as int),
        -FX_ONE <= r <= FX_ONE,
{
    if a <= PI_URAD {
        bhaskara(a)
    } else {
        let r = bhaskara(a - PI_URAD);
        -r
    }
}

/// Fixed-point cosine; the result is scaled so that `FX_ONE` is 1.0.
pub fn cos_fx(a: i64) -> (r: i64)
    requires
        0 <= a < TAU_URAD,
    ensures
        r == cos_fx_spec(a as int),
        -FX_ONE <= r <= FX_ONE,
{
    let b = a + QUARTER_URAD;
    let c = if b >= TAU_URAD {
        b - TAU_URAD
    } else {
        b
    };
    proof {
        let t = TAU_URAD as int;
        if b >= TAU_URAD {
            lemma_fundamental_div_mod_converse(b as int, t, 1, b - t);
        } else {
            lemma_fundamental_div_mod_converse(b as int, t, 0, b as int);
        }
    }
    sin_fx(c)
}

/// At angle zero the fixed-point sine is exactly zero and the cosine is
/// exactly one: the approximation is exact at the quarter turns.
pub proof fn lemma_trig_at_zero()
    ensures
        sin_fx_spec(0) == 0,
        cos_fx_spec(0) == FX_ONE,
{
    let q = QUARTER_URAD as int;
    let t = TAU_URAD as int;
    lemma_div_multiples_vanish(0, 5 * (PI_URAD as int) * (PI_URAD as int));
    assert(sin_fx_spec(0) == 0);
    lemma_fundamental_div_mod_converse(q, t, 0, q);
    assert((0 + q) % t == q);
    let p = q * (PI_URAD - q);
    assert(p == q * q) by (nonlinear_arith)
        requires
            PI_URAD == 2 * q,
            p == q * (PI_URAD - q),
    ;
    assert(5 * (PI_URAD as int) * (PI_URAD as int) == 20 * (q * q)) by (nonlinear_arith)
        requires
            PI_URAD == 2 * q,
    ;
    assert(16 * (q * q) * (FX_ONE as int) == (FX_ONE as int) * (16 * (q * q)))
        by (nonlinear_arith);
    crate::fx::lemma_div_trunc_exact(FX_ONE as int, 16 * (q * q));
    assert(bhaskara_spec(q) == FX_ONE);
}

} // verus!

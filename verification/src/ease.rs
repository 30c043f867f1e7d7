//! The 1D interpolation laws.
//!
//! Each law is a shape function `w` on the fixed-point unit interval with
//! `w(0) == 0` and `w(FP_ONE) == FP_ONE`, applied as
//! `l + (r - l) * w(t) / FP_ONE`; the two endpoint identities make every law
//! return `l` at `t == 0` and `r` at `t == FP_ONE` exactly (the boundary
//! contract of the family, proved in `lemma_ease_boundary`).
//!
//! The classic curves that are transcendental in their real-number form
//! (sine, elastic, exponential) use exact rational approximations chosen so
//! that the endpoint identities still hold exactly: a Bhaskara quotient for
//! the sine, a halving ladder for powers of two, and explicit endpoint
//! branches where the classic formulation has them too.

use vstd::prelude::*;

use crate::fixed::FP_ONE;
use crate::fixed::div_trunc;
use crate::fixed::emod;
use crate::fixed::fpmuldiv;
use crate::fixed::isqrt;
use crate::fixed::lemma_mul_bound;
use crate::fixed::lemma_sqrt_floor_unique;
use crate::fixed::lemma_tdivs_bound;
use crate::fixed::lemma_tdivs_exact;
use crate::fixed::sqrt_floor;
use crate::fixed::tdivs;

verus! {

/// Fixed-point one half.
pub const FP_HALF: i64 = 360448;

/// The overshoot constant of the back law, `1.70158 * 1.525` in fixed point.
pub const BACK_OVERSHOOT: i64 = 1870660;

// Bounce law geometry, all exact multiples of fractions of `FP_ONE` thanks to
// the factor 11 in the scale: branch limits 4/11, 8/11 and 10/11 of one,
// parabola centres 6/11, 9/11 and 21/22, floors 3/4, 15/16 and 63/64.
pub const BOUNCE_LIM1: i64 = 262144;
pub const BOUNCE_LIM2: i64 = 524288;
pub const BOUNCE_LIM3: i64 = 655360;
pub const BOUNCE_MID1: i64 = 393216;
pub const BOUNCE_MID2: i64 = 589824;
pub const BOUNCE_MID3: i64 = 688128;
pub const BOUNCE_ADD1: i64 = 540672;
pub const BOUNCE_ADD2: i64 = 675840;
pub const BOUNCE_ADD3: i64 = 709632;

/// The closed set of interpolation laws of the 1D kernel.
#[derive(Clone, Copy)]
pub enum Ease {
    SmoothStep,
    SmootherStep,
    SmoothestStep,
    Back,
    Bounce,
    Circ,
    Cubic,
    Elastic,
    Expo,
    Linear,
    Quad,
    Quart,
    Quint,
    Sine,
}

// ---------------------------------------------------------------------------
// Shape functions, specification side. Every `tdivs` below is the truncating
// division that the executable code performs; `t` ranges over
// `[0, FP_ONE]`.
// ---------------------------------------------------------------------------

pub open spec fn linear_shape(t: int) -> int {
    t
}

/// `t^2 (3 - 2 t)`.
pub open spec fn smooth_shape(t: int) -> int {
    let p = tdivs(t * t, FP_ONE as int);
    tdivs(p * (3 * FP_ONE - 2 * t), FP_ONE as int)
}

/// `t^3 (t (6 t - 15) + 10)`.
pub open spec fn smoother_shape(t: int) -> int {
    let p2 = tdivs(t * t, FP_ONE as int);
    let p3 = tdivs(p2 * t, FP_ONE as int);
    let q = tdivs(t * (6 * t - 15 * FP_ONE), FP_ONE as int) + 10 * FP_ONE;
    tdivs(p3 * q, FP_ONE as int)
}

/// `t^4 (t (t (70 - 20 t) - 84) + 35)`.
pub open spec fn smoothest_shape(t: int) -> int {
    let p2 = tdivs(t * t, FP_ONE as int);
    let p4 = tdivs(p2 * p2, FP_ONE as int);
    let a = tdivs(t * (70 * FP_ONE - 20 * t), FP_ONE as int) - 84 * FP_ONE;
    let b = tdivs(t * a, FP_ONE as int) + 35 * FP_ONE;
    tdivs(p4 * b, FP_ONE as int)
}

pub open spec fn quad_shape(t: int) -> int {
    if t < FP_HALF {
        tdivs((2 * t) * t, FP_ONE as int)
    } else {
        let v = 2 * FP_ONE - 2 * t;
        FP_ONE - tdivs(v * v, 2 * FP_ONE as int)
    }
}

pub open spec fn cubic_shape(t: int) -> int {
    if t < FP_HALF {
        let a = tdivs((4 * t) * t, FP_ONE as int);
        tdivs(a * t, FP_ONE as int)
    } else {
        let v = 2 * t - 2 * FP_ONE;
        let a = tdivs(v * v, FP_ONE as int);
        let m = tdivs(a * v, FP_ONE as int);
        FP_ONE + tdivs(m, 2)
    }
}

pub open spec fn quart_shape(t: int) -> int {
    if t < FP_HALF {
        let a = tdivs(t * t, FP_ONE as int);
        tdivs((8 * a) * a, FP_ONE as int)
    } else {
        let v = 2 * FP_ONE - 2 * t;
        let a = tdivs(v * v, FP_ONE as int);
        FP_ONE - tdivs(a * a, 2 * FP_ONE as int)
    }
}

pub open spec fn quint_shape(t: int) -> int {
    if t < FP_HALF {
        let a = tdivs(t * t, FP_ONE as int);
        let b = tdivs(a * a, FP_ONE as int);
        tdivs((16 * b) * t, FP_ONE as int)
    } else {
        let v = 2 * t - 2 * FP_ONE;
        let a = tdivs(v * v, FP_ONE as int);
        let b = tdivs(a * a, FP_ONE as int);
        let m = tdivs(b * v, FP_ONE as int);
        FP_ONE + tdivs(m, 2)
    }
}

/// `sin^2(pi t / 2)`, with the sine as the Bhaskara quotient
/// `4 u (2 - u) / (5 - u (2 - u))`, exact at both ends.
pub open spec fn sine_shape(t: int) -> int {
    let p = tdivs(t * (2 * FP_ONE - t), FP_ONE as int);
    let s = tdivs((4 * p) * FP_ONE, 5 * FP_ONE - p);
    tdivs(s * s, FP_ONE as int)
}

pub open spec fn circ_shape(t: int) -> int {
    if t < FP_HALF {
        let u = 2 * t;
        let g = sqrt_floor(FP_ONE * FP_ONE - u * u);
        tdivs(FP_ONE - g, 2)
    } else {
        let v = 2 * FP_ONE - 2 * t;
        let g = sqrt_floor(FP_ONE * FP_ONE - v * v);
        tdivs(g + FP_ONE, 2)
    }
}

/// `n` successive halvings (truncating) of `v`.
pub open spec fn spec_halve(v: int, n: nat) -> int
    decreases n,
{
    if n == 0 {
        v
    } else {
        spec_halve(v / 2, (n - 1) as nat)
    }
}

/// Approximately `FP_ONE * 2^(-e / FP_ONE)` for `e` in `[0, 10 * FP_ONE]`:
/// the integer part of the exponent is a halving ladder, the fractional part
/// a linear segment between one and one half (exact at both segment ends).
pub open spec fn spec_pow2_frac(e: int) -> int {
    spec_halve(FP_ONE - (e % (FP_ONE as int)) / 2, (e / (FP_ONE as int)) as nat)
}

pub open spec fn expo_shape(t: int) -> int {
    if t == 0 {
        0
    } else if t == FP_ONE {
        FP_ONE as int
    } else if t < FP_HALF {
        tdivs(spec_pow2_frac(10 * FP_ONE - 20 * t), 2)
    } else {
        FP_ONE - tdivs(spec_pow2_frac(20 * t - 10 * FP_ONE), 2)
    }
}

/// Bhaskara sine of a half turn: approximately `FP_ONE * sin(pi v / FP_ONE)`
/// for `v` in `[0, FP_ONE]`, exact at `0`, the midpoint and `FP_ONE`.
pub open spec fn spec_sin_pos(v: int) -> int {
    let q = tdivs(v * (FP_ONE - v), FP_ONE as int);
    tdivs((16 * q) * FP_ONE, 5 * FP_ONE - 4 * q)
}

/// Sine of a full turn fraction `r` in `[0, FP_ONE)`.
pub open spec fn spec_sin_turn(r: int) -> int {
    if r <= FP_HALF {
        spec_sin_pos(2 * r)
    } else {
        -spec_sin_pos(2 * r - FP_ONE)
    }
}

pub open spec fn elastic_shape(t: int) -> int {
    if t == 0 {
        0
    } else if t == FP_ONE {
        FP_ONE as int
    } else {
        let tau = tdivs(160 * t - 89 * FP_ONE, 36);
        let s = spec_sin_turn(tau % (FP_ONE as int));
        if t < FP_HALF {
            -tdivs(tdivs(spec_pow2_frac(10 * FP_ONE - 20 * t) * s, FP_ONE as int), 2)
        } else {
            FP_ONE + tdivs(tdivs(spec_pow2_frac(20 * t - 10 * FP_ONE) * s, FP_ONE as int), 2)
        }
    }
}

pub open spec fn back_shape(t: int) -> int {
    if t < FP_HALF {
        let u = 2 * t;
        let a = tdivs(u * u, FP_ONE as int);
        let m = tdivs((BACK_OVERSHOOT + FP_ONE) * u, FP_ONE as int) - BACK_OVERSHOOT;
        tdivs(tdivs(a * m, FP_ONE as int), 2)
    } else {
        let u = 2 * t - 2 * FP_ONE;
        let a = tdivs(u * u, FP_ONE as int);
        let m = tdivs((BACK_OVERSHOOT + FP_ONE) * u, FP_ONE as int) + BACK_OVERSHOOT;
        FP_ONE + tdivs(tdivs(a * m, FP_ONE as int), 2)
    }
}

/// The rebound half of the bounce law: four parabolic arcs `121/16 (v-c)^2 + f`.
pub open spec fn spec_bounce_out(v: int) -> int {
    if v < BOUNCE_LIM1 {
        tdivs((121 * v) * v, 16 * FP_ONE as int)
    } else if v < BOUNCE_LIM2 {
        let d = v - BOUNCE_MID1;
        tdivs((121 * d) * d, 16 * FP_ONE as int) + BOUNCE_ADD1
    } else if v < BOUNCE_LIM3 {
        let d = v - BOUNCE_MID2;
        tdivs((121 * d) * d, 16 * FP_ONE as int) + BOUNCE_ADD2
    } else {
        let d = v - BOUNCE_MID3;
        tdivs((121 * d) * d, 16 * FP_ONE as int) + BOUNCE_ADD3
    }
}

pub open spec fn bounce_shape(t: int) -> int {
    if t < FP_HALF {
        tdivs(FP_ONE - spec_bounce_out(FP_ONE - 2 * t), 2)
    } else {
        tdivs(FP_ONE + spec_bounce_out(2 * t - FP_ONE), 2)
    }
}

/// The shape of a law: its value on the fixed-point unit interval.
pub open spec fn ease_shape(law: Ease, t: int) -> int {
    match law {
        Ease::SmoothStep => smooth_shape(t),
        Ease::SmootherStep => smoother_shape(t),
        Ease::SmoothestStep => smoothest_shape(t),
        Ease::Back => back_shape(t),
        Ease::Bounce => bounce_shape(t),
        Ease::Circ => circ_shape(t),
        Ease::Cubic => cubic_shape(t),
        Ease::Elastic => elastic_shape(t),
        Ease::Expo => expo_shape(t),
        Ease::Linear => linear_shape(t),
        Ease::Quad => quad_shape(t),
        Ease::Quart => quart_shape(t),
        Ease::Quint => quint_shape(t),
        Ease::Sine => sine_shape(t),
    }
}

/// What a law returns: `l` moved toward `r` by the shape at `t`.
pub open spec fn spec_ease(law: Ease, t: int, l: int, r: int) -> int {
    l + tdivs((r - l) * ease_shape(law, t), FP_ONE as int)
}

// ---------------------------------------------------------------------------
// Shape functions, executable side. Each mirrors its specification exactly
// and carries a magnitude bound that rules overflow out at the call sites.
// ---------------------------------------------------------------------------

fn smooth_fp(t: i64) -> (w: i64)
    requires
        0 <= t <= FP_ONE,
    ensures
        w == smooth_shape(t as int),
        -3 * (FP_ONE as int) <= w <= 3 * (FP_ONE as int),
{
    let p = fpmuldiv(t, t, FP_ONE);
    proof {
        lemma_mul_bound(t as int, t as int, FP_ONE as int, FP_ONE as int);
        lemma_tdivs_bound(t as int * t as int, FP_ONE as int, FP_ONE as int);
    }
    let q = 3 * FP_ONE - 2 * t;
    let w = fpmuldiv(p, q, FP_ONE);
    proof {
        lemma_mul_bound(p as int, q as int, FP_ONE as int, 3 * (FP_ONE as int));
        lemma_tdivs_bound(p as int * q as int, FP_ONE as int, 3 * (FP_ONE as int));
    }
    w
}

fn smoother_fp(t: i64) -> (w: i64)
    requires
        0 <= t <= FP_ONE,
    ensures
        w == smoother_shape(t as int),
        -25 * (FP_ONE as int) <= w <= 25 * (FP_ONE as int),
{
    let p2 = fpmuldiv(t, t, FP_ONE);
    proof {
        lemma_mul_bound(t as int, t as int, FP_ONE as int, FP_ONE as int);
        lemma_tdivs_bound(t as int * t as int, FP_ONE as int, FP_ONE as int);
    }
    let p3 = fpmuldiv(p2, t, FP_ONE);
    proof {
        lemma_mul_bound(p2 as int, t as int, FP_ONE as int, FP_ONE as int);
        lemma_tdivs_bound(p2 as int * t as int, FP_ONE as int, FP_ONE as int);
    }
    let c = 6 * t - 15 * FP_ONE;
    let q0 = fpmuldiv(t, c, FP_ONE);
    proof {
        lemma_mul_bound(t as int, c as int, FP_ONE as int, 15 * (FP_ONE as int));
        lemma_tdivs_bound(t as int * c as int, FP_ONE as int, 15 * (FP_ONE as int));
    }
    let q = q0 + 10 * FP_ONE;
    let w = fpmuldiv(p3, q, FP_ONE);
    proof {
        lemma_mul_bound(p3 as int, q as int, FP_ONE as int, 25 * (FP_ONE as int));
        lemma_tdivs_bound(p3 as int * q as int, FP_ONE as int, 25 * (FP_ONE as int));
    }
    w
}

fn smoothest_fp(t: i64) -> (w: i64)
    requires
        0 <= t <= FP_ONE,
    ensures
        w == smoothest_shape(t as int),
        -84 * (FP_ONE as int) <= w <= 84 * (FP_ONE as int),
{
    let p2 = fpmuldiv(t, t, FP_ONE);
    proof {
        lemma_mul_bound(t as int, t as int, FP_ONE as int, FP_ONE as int);
        lemma_tdivs_bound(t as int * t as int, FP_ONE as int, FP_ONE as int);
    }
    let p4 = fpmuldiv(p2, p2, FP_ONE);
    proof {
        lemma_mul_bound(p2 as int, p2 as int, FP_ONE as int, FP_ONE as int);
        lemma_tdivs_bound(p2 as int * p2 as int, FP_ONE as int, FP_ONE as int);
    }
    let c = 70 * FP_ONE - 20 * t;
    let a0 = fpmuldiv(t, c, FP_ONE);
    proof {
        assert(t as int * c as int >= 0) by (nonlinear_arith)
            requires 0 <= t && c as int >= 0;
        lemma_mul_bound(t as int, c as int, FP_ONE as int, 70 * (FP_ONE as int));
        lemma_tdivs_bound(t as int * c as int, FP_ONE as int, 70 * (FP_ONE as int));
    }
    let a = a0 - 84 * FP_ONE;
    let b0 = fpmuldiv(t, a, FP_ONE);
    proof {
        assert(t as int * a as int <= 0) by (nonlinear_arith)
            requires 0 <= t && a as int <= 0;
        lemma_mul_bound(t as int, a as int, FP_ONE as int, 84 * (FP_ONE as int));
        lemma_tdivs_bound(t as int * a as int, FP_ONE as int, 84 * (FP_ONE as int));
    }
    let b = b0 + 35 * FP_ONE;
    let w = fpmuldiv(p4, b, FP_ONE);
    proof {
        lemma_mul_bound(p4 as int, b as int, FP_ONE as int, 84 * (FP_ONE as int));
        lemma_tdivs_bound(p4 as int * b as int, FP_ONE as int, 84 * (FP_ONE as int));
    }
    w
}

fn quad_fp(t: i64) -> (w: i64)
    requires
        0 <= t <= FP_ONE,
    ensures
        w == quad_shape(t as int),
        -2 * (FP_ONE as int) <= w <= 2 * (FP_ONE as int),
{
    if t < FP_HALF {
        let w = fpmuldiv(2 * t, t, FP_ONE);
        proof {
            lemma_mul_bound(2 * t as int, t as int, 2 * (FP_ONE as int), FP_ONE as int);
            lemma_tdivs_bound(2 * (t as int) * (t as int), FP_ONE as int, 2 * (FP_ONE as int));
        }
        w
    } else {
        let v = 2 * FP_ONE - 2 * t;
        let d = fpmuldiv(v, v, 2 * FP_ONE);
        proof {
            lemma_mul_bound(v as int, v as int, FP_ONE as int, FP_ONE as int);
            lemma_tdivs_bound(v as int * v as int, 2 * (FP_ONE as int), FP_ONE as int);
        }
        FP_ONE - d
    }
}

fn cubic_fp(t: i64) -> (w: i64)
    requires
        0 <= t <= FP_ONE,
    ensures
        w == cubic_shape(t as int),
        -4 * (FP_ONE as int) <= w <= 4 * (FP_ONE as int),
{
    if t < FP_HALF {
        let a = fpmuldiv(4 * t, t, FP_ONE);
        proof {
            lemma_mul_bound(4 * t as int, t as int, 4 * (FP_ONE as int), FP_ONE as int);
            lemma_tdivs_bound(4 * (t as int) * (t as int), FP_ONE as int, 4 * (FP_ONE as int));
        }
        let w = fpmuldiv(a, t, FP_ONE);
        proof {
            lemma_mul_bound(a as int, t as int, 4 * (FP_ONE as int), FP_ONE as int);
            lemma_tdivs_bound(a as int * t as int, FP_ONE as int, 4 * (FP_ONE as int));
        }
        w
    } else {
        let v = 2 * t - 2 * FP_ONE;
        let a = fpmuldiv(v, v, FP_ONE);
        proof {
            lemma_mul_bound(v as int, v as int, FP_ONE as int, FP_ONE as int);
            lemma_tdivs_bound(v as int * v as int, FP_ONE as int, FP_ONE as int);
        }
        let m = fpmuldiv(a, v, FP_ONE);
        proof {
            lemma_mul_bound(a as int, v as int, FP_ONE as int, FP_ONE as int);
            lemma_tdivs_bound(a as int * v as int, FP_ONE as int, FP_ONE as int);
        }
        FP_ONE + div_trunc(m, 2)
    }
}

fn quart_fp(t: i64) -> (w: i64)
    requires
        0 <= t <= FP_ONE,
    ensures
        w == quart_shape(t as int),
        -8 * (FP_ONE as int) <= w <= 8 * (FP_ONE as int),
{
    if t < FP_HALF {
        let a = fpmuldiv(t, t, FP_ONE);
        proof {
            lemma_mul_bound(t as int, t as int, FP_ONE as int, FP_ONE as int);
            lemma_tdivs_bound(t as int * t as int, FP_ONE as int, FP_ONE as int);
        }
        let w = fpmuldiv(8 * a, a, FP_ONE);
        proof {
            lemma_mul_bound(8 * a as int, a as int, 8 * (FP_ONE as int), FP_ONE as int);
            lemma_tdivs_bound(8 * (a as int) * (a as int), FP_ONE as int, 8 * (FP_ONE as int));
        }
        w
    } else {
        let v = 2 * FP_ONE - 2 * t;
        let a = fpmuldiv(v, v, FP_ONE);
        proof {
            lemma_mul_bound(v as int, v as int, FP_ONE as int, FP_ONE as int);
            lemma_tdivs_bound(v as int * v as int, FP_ONE as int, FP_ONE as int);
        }
        let d = fpmuldiv(a, a, 2 * FP_ONE);
        proof {
            lemma_mul_bound(a as int, a as int, FP_ONE as int, FP_ONE as int);
            lemma_tdivs_bound(a as int * a as int, 2 * (FP_ONE as int), FP_ONE as int);
        }
        FP_ONE - d
    }
}

fn quint_fp(t: i64) -> (w: i64)
    requires
        0 <= t <= FP_ONE,
    ensures
        w == quint_shape(t as int),
        -16 * (FP_ONE as int) <= w <= 16 * (FP_ONE as int),
{
    if t < FP_HALF {
        let a = fpmuldiv(t, t, FP_ONE);
        proof {
            lemma_mul_bound(t as int, t as int, FP_ONE as int, FP_ONE as int);
            lemma_tdivs_bound(t as int * t as int, FP_ONE as int, FP_ONE as int);
        }
        let b = fpmuldiv(a, a, FP_ONE);
        proof {
            lemma_mul_bound(a as int, a as int, FP_ONE as int, FP_ONE as int);
            lemma_tdivs_bound(a as int * a as int, FP_ONE as int, FP_ONE as int);
        }
        let w = fpmuldiv(16 * b, t, FP_ONE);
        proof {
            lemma_mul_bound(16 * b as int, t as int, 16 * (FP_ONE as int), FP_ONE as int);
            lemma_tdivs_bound(16 * (b as int) * (t as int), FP_ONE as int, 16 * (FP_ONE as int));
        }
        w
    } else {
        let v = 2 * t - 2 * FP_ONE;
        let a = fpmuldiv(v, v, FP_ONE);
        proof {
            lemma_mul_bound(v as int, v as int, FP_ONE as int, FP_ONE as int);
            lemma_tdivs_bound(v as int * v as int, FP_ONE as int, FP_ONE as int);
        }
        let b = fpmuldiv(a, a, FP_ONE);
        proof {
            lemma_mul_bound(a as int, a as int, FP_ONE as int, FP_ONE as int);
            lemma_tdivs_bound(a as int * a as int, FP_ONE as int, FP_ONE as int);
        }
        let m = fpmuldiv(b, v, FP_ONE);
        proof {
            lemma_mul_bound(b as int, v as int, FP_ONE as int, FP_ONE as int);
            lemma_tdivs_bound(b as int * v as int, FP_ONE as int, FP_ONE as int);
        }
        FP_ONE + div_trunc(m, 2)
    }
}

fn sine_fp(t: i64) -> (w: i64)
    requires
        0 <= t <= FP_ONE,
    ensures
        w == sine_shape(t as int),
        0 <= w <= FP_ONE,
{
    let c = 2 * FP_ONE - t;
    let p = fpmuldiv(t, c, FP_ONE);
    proof {
        assert(t as int * c as int >= 0) by (nonlinear_arith)
            requires 0 <= t && c as int >= 0;
        assert(t as int * c as int <= (FP_ONE as int) * (FP_ONE as int)) by (nonlinear_arith)
            requires 0 <= t <= FP_ONE && c as int == 2 * (FP_ONE as int) - t as int;
        lemma_tdivs_bound(t as int * c as int, FP_ONE as int, FP_ONE as int);
    }
    let den = 5 * FP_ONE - p;
    let s = fpmuldiv(4 * p, FP_ONE, den);
    proof {
        assert((4 * p as int) * (FP_ONE as int) >= 0) by (nonlinear_arith)
            requires 0 <= p;
        assert((4 * p as int) * (FP_ONE as int) <= (FP_ONE as int) * (den as int))
            by (nonlinear_arith)
            requires 0 <= p <= FP_ONE && den as int == 5 * (FP_ONE as int) - p as int;
        lemma_tdivs_bound((4 * p as int) * (FP_ONE as int), den as int, FP_ONE as int);
    }
    let w = fpmuldiv(s, s, FP_ONE);
    proof {
        lemma_mul_bound(s as int, s as int, FP_ONE as int, FP_ONE as int);
        lemma_tdivs_bound(s as int * s as int, FP_ONE as int, FP_ONE as int);
        assert(s as int * s as int >= 0) by (nonlinear_arith);
    }
    w
}

fn circ_fp(t: i64) -> (w: i64)
    requires
        0 <= t <= FP_ONE,
    ensures
        w == circ_shape(t as int),
        0 <= w <= FP_ONE,
{
    if t < FP_HALF {
        let u = 2 * t;
        proof {
            assert(0 <= u as int * u as int <= (FP_ONE as int) * (FP_ONE as int))
                by (nonlinear_arith)
                requires 0 <= u <= FP_ONE;
        }
        let d = FP_ONE * FP_ONE - u * u;
        let g = isqrt(d as u64);
        proof {
            assert(g as int <= FP_ONE as int) by (nonlinear_arith)
                requires
                    g as int * g as int <= (FP_ONE as int) * (FP_ONE as int)
                        && g as int >= 0;
        }
        div_trunc(FP_ONE - (g as i64), 2)
    } else {
        let v = 2 * FP_ONE - 2 * t;
        proof {
            assert(0 <= v as int * v as int <= (FP_ONE as int) * (FP_ONE as int))
                by (nonlinear_arith)
                requires 0 <= v <= FP_ONE;
        }
        let d = FP_ONE * FP_ONE - v * v;
        let g = isqrt(d as u64);
        proof {
            assert(g as int <= FP_ONE as int) by (nonlinear_arith)
                requires
                    g as int * g as int <= (FP_ONE as int) * (FP_ONE as int)
                        && g as int >= 0;
        }
        div_trunc((g as i64) + FP_ONE, 2)
    }
}

fn pow2_frac(e: i64) -> (p: i64)
    requires
        0 <= e <= 10 * FP_ONE,
    ensures
        p == spec_pow2_frac(e as int),
        0 <= p <= FP_ONE,
{
    let n: u64 = (e as u64) / (FP_ONE as u64);
    let f: u64 = (e as u64) % (FP_ONE as u64);
    let mut v: i64 = FP_ONE - ((f / 2) as i64);
    let mut i: u64 = 0;
    proof {
        assert(n <= 10) by (nonlinear_arith)
            requires
                0 <= e <= 10 * FP_ONE,
                n == (e as u64) / (FP_ONE as u64),
                FP_ONE == 720896i64;
        assert(spec_halve(v as int, (n - i) as nat) == spec_pow2_frac(e as int));
    }
    while i < n
        invariant
            0 <= v <= FP_ONE,
            i <= n,
            n <= 10,
            spec_halve(v as int, (n - i) as nat) == spec_pow2_frac(e as int),
        decreases n - i,
    {
        v = ((v as u64) / 2) as i64;
        i = i + 1;
    }
    v
}

fn expo_fp(t: i64) -> (w: i64)
    requires
        0 <= t <= FP_ONE,
    ensures
        w == expo_shape(t as int),
        0 <= w <= FP_ONE,
{
    if t == 0 {
        0
    } else if t == FP_ONE {
        FP_ONE
    } else if t < FP_HALF {
        let p = pow2_frac(10 * FP_ONE - 20 * t);
        div_trunc(p, 2)
    } else {
        let p = pow2_frac(20 * t - 10 * FP_ONE);
        FP_ONE - div_trunc(p, 2)
    }
}

fn sin_pos_fp(v: i64) -> (s: i64)
    requires
        0 <= v <= FP_ONE,
    ensures
        s == spec_sin_pos(v as int),
        0 <= s <= FP_ONE,
{
    let c = FP_ONE - v;
    let q = fpmuldiv(v, c, FP_ONE);
    proof {
        assert(v as int * c as int >= 0) by (nonlinear_arith)
            requires 0 <= v && c as int >= 0;
        assert(v as int * c as int <= 180224 * (FP_ONE as int)) by (nonlinear_arith)
            requires 0 <= v <= FP_ONE && c as int == FP_ONE as int - v as int;
        lemma_tdivs_bound(v as int * c as int, FP_ONE as int, 180224);
    }
    let den = 5 * FP_ONE - 4 * q;
    let s = fpmuldiv(16 * q, FP_ONE, den);
    proof {
        assert((16 * q as int) * (FP_ONE as int) >= 0) by (nonlinear_arith)
            requires 0 <= q;
        assert((16 * q as int) * (FP_ONE as int) <= (FP_ONE as int) * (den as int))
            by (nonlinear_arith)
            requires 0 <= q <= 180224 && den as int == 5 * (FP_ONE as int) - 4 * q as int;
        lemma_tdivs_bound((16 * q as int) * (FP_ONE as int), den as int, FP_ONE as int);
    }
    s
}

fn sin_turn_fp(r: i64) -> (s: i64)
    requires
        0 <= r < FP_ONE,
    ensures
        s == spec_sin_turn(r as int),
        -FP_ONE <= s <= FP_ONE,
{
    if r <= FP_HALF {
        sin_pos_fp(2 * r)
    } else {
        -(sin_pos_fp(2 * r - FP_ONE))
    }
}

fn elastic_fp(t: i64) -> (w: i64)
    requires
        0 <= t <= FP_ONE,
    ensures
        w == elastic_shape(t as int),
        -2 * (FP_ONE as int) <= w <= 2 * (FP_ONE as int),
{
    if t == 0 {
        0
    } else if t == FP_ONE {
        FP_ONE
    } else {
        let tau = div_trunc(160 * t - 89 * FP_ONE, 36);
        let r = emod(tau, FP_ONE);
        let s = sin_turn_fp(r);
        if t < FP_HALF {
            let p = pow2_frac(10 * FP_ONE - 20 * t);
            let m = fpmuldiv(p, s, FP_ONE);
            proof {
                lemma_mul_bound(p as int, s as int, FP_ONE as int, FP_ONE as int);
                lemma_tdivs_bound(p as int * s as int, FP_ONE as int, FP_ONE as int);
            }
            -(div_trunc(m, 2))
        } else {
            let p = pow2_frac(20 * t - 10 * FP_ONE);
            let m = fpmuldiv(p, s, FP_ONE);
            proof {
                lemma_mul_bound(p as int, s as int, FP_ONE as int, FP_ONE as int);
                lemma_tdivs_bound(p as int * s as int, FP_ONE as int, FP_ONE as int);
            }
            FP_ONE + div_trunc(m, 2)
        }
    }
}

fn back_fp(t: i64) -> (w: i64)
    requires
        0 <= t <= FP_ONE,
    ensures
        w == back_shape(t as int),
        -6 * (FP_ONE as int) <= w <= 6 * (FP_ONE as int),
{
    if t < FP_HALF {
        let u = 2 * t;
        let a = fpmuldiv(u, u, FP_ONE);
        proof {
            lemma_mul_bound(u as int, u as int, FP_ONE as int, FP_ONE as int);
            lemma_tdivs_bound(u as int * u as int, FP_ONE as int, FP_ONE as int);
        }
        let m0 = fpmuldiv(BACK_OVERSHOOT + FP_ONE, u, FP_ONE);
        proof {
            lemma_mul_bound(
                BACK_OVERSHOOT as int + FP_ONE as int, u as int,
                4 * (FP_ONE as int), FP_ONE as int);
            lemma_tdivs_bound(
                (BACK_OVERSHOOT as int + FP_ONE as int) * u as int,
                FP_ONE as int, 4 * (FP_ONE as int));
        }
        let m = m0 - BACK_OVERSHOOT;
        let z = fpmuldiv(a, m, FP_ONE);
        proof {
            lemma_mul_bound(a as int, m as int, FP_ONE as int, 7 * (FP_ONE as int));
            lemma_tdivs_bound(a as int * m as int, FP_ONE as int, 7 * (FP_ONE as int));
            lemma_tdivs_bound(z as int, 2, 4 * (FP_ONE as int));
        }
        div_trunc(z, 2)
    } else {
        let u = 2 * t - 2 * FP_ONE;
        let a = fpmuldiv(u, u, FP_ONE);
        proof {
            lemma_mul_bound(u as int, u as int, FP_ONE as int, FP_ONE as int);
            lemma_tdivs_bound(u as int * u as int, FP_ONE as int, FP_ONE as int);
        }
        let m0 = fpmuldiv(BACK_OVERSHOOT + FP_ONE, u, FP_ONE);
        proof {
            lemma_mul_bound(
                BACK_OVERSHOOT as int + FP_ONE as int, u as int,
                4 * (FP_ONE as int), FP_ONE as int);
            lemma_tdivs_bound(
                (BACK_OVERSHOOT as int + FP_ONE as int) * u as int,
                FP_ONE as int, 4 * (FP_ONE as int));
        }
        let m = m0 + BACK_OVERSHOOT;
        let z = fpmuldiv(a, m, FP_ONE);
        proof {
            lemma_mul_bound(a as int, m as int, FP_ONE as int, 7 * (FP_ONE as int));
            lemma_tdivs_bound(a as int * m as int, FP_ONE as int, 7 * (FP_ONE as int));
            lemma_tdivs_bound(z as int, 2, 4 * (FP_ONE as int));
        }
        FP_ONE + div_trunc(z, 2)
    }
}

fn bounce_out_fp(v: i64) -> (w: i64)
    requires
        0 <= v <= FP_ONE,
    ensures
        w == spec_bounce_out(v as int),
        0 <= w <= FP_ONE,
{
    if v < BOUNCE_LIM1 {
        let w = fpmuldiv(121 * v, v, 16 * FP_ONE);
        proof {
            assert((121 * v as int) * (v as int) >= 0) by (nonlinear_arith)
                requires 0 <= v;
            assert((121 * v as int) * (v as int) <= (FP_ONE as int) * (16 * (FP_ONE as int)))
                by (nonlinear_arith)
                requires 0 <= v <= 262144;
            lemma_tdivs_bound((121 * v as int) * (v as int), 16 * (FP_ONE as int),
                FP_ONE as int);
        }
        w
    } else if v < BOUNCE_LIM2 {
        let d = v - BOUNCE_MID1;
        let w0 = fpmuldiv(121 * d, d, 16 * FP_ONE);
        proof {
            assert((121 * d as int) * (d as int) >= 0) by (nonlinear_arith);
            assert((121 * d as int) * (d as int) <= 180224 * (16 * (FP_ONE as int)))
                by (nonlinear_arith)
                requires -131072 <= d <= 131072;
            lemma_tdivs_bound((121 * d as int) * (d as int), 16 * (FP_ONE as int), 180224);
        }
        w0 + BOUNCE_ADD1
    } else if v < BOUNCE_LIM3 {
        let d = v - BOUNCE_MID2;
        let w0 = fpmuldiv(121 * d, d, 16 * FP_ONE);
        proof {
            assert((121 * d as int) * (d as int) >= 0) by (nonlinear_arith);
            assert((121 * d as int) * (d as int) <= 45056 * (16 * (FP_ONE as int)))
                by (nonlinear_arith)
                requires -65536 <= d <= 65536;
            lemma_tdivs_bound((121 * d as int) * (d as int), 16 * (FP_ONE as int), 45056);
        }
        w0 + BOUNCE_ADD2
    } else {
        let d = v - BOUNCE_MID3;
        let w0 = fpmuldiv(121 * d, d, 16 * FP_ONE);
        proof {
            assert((121 * d as int) * (d as int) >= 0) by (nonlinear_arith);
            assert((121 * d as int) * (d as int) <= 11264 * (16 * (FP_ONE as int)))
                by (nonlinear_arith)
                requires -32768 <= d <= 32768;
            lemma_tdivs_bound((121 * d as int) * (d as int), 16 * (FP_ONE as int), 11264);
        }
        w0 + BOUNCE_ADD3
    }
}

fn bounce_fp(t: i64) -> (w: i64)
    requires
        0 <= t <= FP_ONE,
    ensures
        w == bounce_shape(t as int),
        0 <= w <= FP_ONE,
{
    if t < FP_HALF {
        let b = bounce_out_fp(FP_ONE - 2 * t);
        proof {
            lemma_tdivs_bound(FP_ONE as int - b as int, 2, FP_ONE as int);
        }
        div_trunc(FP_ONE - b, 2)
    } else {
        let b = bounce_out_fp(2 * t - FP_ONE);
        proof {
            lemma_tdivs_bound(FP_ONE as int + b as int, 2, FP_ONE as int);
        }
        div_trunc(FP_ONE + b, 2)
    }
}

/// The shape of a law, executable: mirrors `ease_shape` exactly.
fn shape_fp(law: Ease, t: i64) -> (w: i64)
    requires
        0 <= t <= FP_ONE,
    ensures
        w == ease_shape(law, t as int),
        -90 * (FP_ONE as int) <= w <= 90 * (FP_ONE as int),
{
    match law {
        Ease::SmoothStep => smooth_fp(t),
        Ease::SmootherStep => smoother_fp(t),
        Ease::SmoothestStep => smoothest_fp(t),
        Ease::Back => back_fp(t),
        Ease::Bounce => bounce_fp(t),
        Ease::Circ => circ_fp(t),
        Ease::Cubic => cubic_fp(t),
        Ease::Elastic => elastic_fp(t),
        Ease::Expo => expo_fp(t),
        Ease::Linear => t,
        Ease::Quad => quad_fp(t),
        Ease::Quart => quart_fp(t),
        Ease::Quint => quint_fp(t),
        Ease::Sine => sine_fp(t),
    }
}

/// Interpolate between `l` and `r` with the given law at the fixed-point
/// parameter `t`.
pub fn ease(law: Ease, t: i64, l: i64, r: i64) -> (v: i64)
    requires
        0 <= t <= FP_ONE,
        -FP_ONE <= l <= FP_ONE,
        -FP_ONE <= r <= FP_ONE,
    ensures
        v == spec_ease(law, t as int, l as int, r as int),
        -200 * (FP_ONE as int) <= v <= 200 * (FP_ONE as int),
{
    let w = shape_fp(law, t);
    let m = fpmuldiv(r - l, w, FP_ONE);
    proof {
        lemma_mul_bound((r - l) as int, w as int, 2 * (FP_ONE as int), 90 * (FP_ONE as int));
        lemma_tdivs_bound(
            (r - l) as int * w as int, FP_ONE as int, 180 * (FP_ONE as int));
    }
    l + m
}

/// Hermite interpolation of degree three: `t^2 (3 - 2 t)` between the ends.
pub fn smooth_step(left: i64, right: i64, x: i64) -> (v: i64)
    requires
        0 <= x <= FP_ONE,
        -FP_ONE <= left <= FP_ONE,
        -FP_ONE <= right <= FP_ONE,
    ensures
        v == spec_ease(Ease::SmoothStep, x as int, left as int, right as int),
{
    ease(Ease::SmoothStep, x, left, right)
}

/// Hermite interpolation of degree five between the ends.
pub fn smoother_step(left: i64, right: i64, x: i64) -> (v: i64)
    requires
        0 <= x <= FP_ONE,
        -FP_ONE <= left <= FP_ONE,
        -FP_ONE <= right <= FP_ONE,
    ensures
        v == spec_ease(Ease::SmootherStep, x as int, left as int, right as int),
{
    ease(Ease::SmootherStep, x, left, right)
}

/// Hermite interpolation of degree seven between the ends.
pub fn smoothest_step(left: i64, right: i64, x: i64) -> (v: i64)
    requires
        0 <= x <= FP_ONE,
        -FP_ONE <= left <= FP_ONE,
        -FP_ONE <= right <= FP_ONE,
    ensures
        v == spec_ease(Ease::SmoothestStep, x as int, left as int, right as int),
{
    ease(Ease::SmoothestStep, x, left, right)
}

// ---------------------------------------------------------------------------
// The boundary law of the family.
// ---------------------------------------------------------------------------

/// Every shape starts at zero and ends at one, exactly.
pub proof fn lemma_shape_boundary(law: Ease)
    ensures
        ease_shape(law, 0) == 0,
        ease_shape(law, FP_ONE as int) == FP_ONE as int,
{
    let s = FP_ONE as int;
    lemma_tdivs_exact(0, s);
    lemma_tdivs_exact(s, s);
    lemma_tdivs_exact(0, 2);
    lemma_tdivs_exact(s, 2);
    lemma_tdivs_exact(0, 2 * s);
    lemma_tdivs_exact(0, 16 * s);
    match law {
        Ease::SmootherStep => {
            assert(s * (6 * s - 15 * s) == (-9 * s) * s) by (nonlinear_arith);
            lemma_tdivs_exact(-9 * s, s);
        }
        Ease::SmoothestStep => {
            assert(s * (70 * s - 20 * s) == (50 * s) * s) by (nonlinear_arith);
            assert(s * ((50 * s) - 84 * s) == (-34 * s) * s) by (nonlinear_arith);
            lemma_tdivs_exact(50 * s, s);
            lemma_tdivs_exact(-34 * s, s);
        }
        Ease::Sine => {
            assert(s * (2 * s - s) == s * s) by (nonlinear_arith);
            assert((4 * s) * s == s * (4 * s)) by (nonlinear_arith);
            lemma_tdivs_exact(s, 4 * s);
        }
        Ease::Circ => {
            assert(s * s < (s + 1) * (s + 1)) by (nonlinear_arith)
                requires s >= 0;
            lemma_sqrt_floor_unique(s * s, s);
        }
        Ease::Bounce => {
            assert((121 * 32768) * 32768 == 11264 * (16 * s));
            lemma_tdivs_exact(11264, 16 * s);
            assert(spec_bounce_out(s) == s);
        }
        _ => {}
    }
}

/// The linear law never leaves the closed interval of its endpoints.
pub proof fn lemma_linear_range(t: int, l: int, r: int)
    requires
        0 <= t <= FP_ONE,
        l <= r,
    ensures
        l <= spec_ease(Ease::Linear, t, l, r) <= r,
{
    let m = (r - l) * t;
    assert(0 <= m <= (r - l) * FP_ONE) by (nonlinear_arith)
        requires 0 <= t <= FP_ONE && l <= r && m == (r - l) * t;
    assert(0 <= tdivs(m, FP_ONE as int)) by (nonlinear_arith)
        requires m >= 0;
    assert(tdivs(m, FP_ONE as int) <= r - l) by (nonlinear_arith)
        requires 0 <= m <= (r - l) * FP_ONE;
}

/// The linear law moves monotonically from the left value toward the right
/// one as the parameter grows.
pub proof fn lemma_linear_monotone(t1: int, t2: int, l: int, r: int)
    requires
        0 <= t1 <= t2 <= FP_ONE,
        l <= r,
    ensures
        spec_ease(Ease::Linear, t1, l, r) <= spec_ease(Ease::Linear, t2, l, r),
{
    let m1 = (r - l) * t1;
    let m2 = (r - l) * t2;
    assert(0 <= m1 <= m2) by (nonlinear_arith)
        requires 0 <= t1 <= t2 && l <= r && m1 == (r - l) * t1 && m2 == (r - l) * t2;
    assert(tdivs(m1, FP_ONE as int) <= tdivs(m2, FP_ONE as int)) by (nonlinear_arith)
        requires 0 <= m1 <= m2;
}

/// The boundary law of the easing family: every law returns the left value
/// at zero and the right value at one, exactly, for all endpoint values.
pub proof fn lemma_ease_boundary(law: Ease, l: int, r: int)
    ensures
        spec_ease(law, 0, l, r) == l,
        spec_ease(law, FP_ONE as int, l, r) == r,
{
    lemma_shape_boundary(law);
    assert((r - l) * 0 == 0) by (nonlinear_arith);
    lemma_tdivs_exact(0, FP_ONE as int);
    lemma_tdivs_exact(r - l, FP_ONE as int);
}

} // verus!

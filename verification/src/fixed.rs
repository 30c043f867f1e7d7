//! Fixed-point scalar arithmetic.
//!
//! A sample value of `1.0` is the integer `FP_ONE`. The scale is
//! `11 * 2^16`: the factor `11` makes the breakpoints of the bounce easing
//! law exact multiples of the scale, so its boundary values need no rounding.

use vstd::prelude::*;

verus! {

/// The fixed-point representation of `1.0` (`11 * 2^16`).
pub const FP_ONE: i64 = 720896;

/// Truncating division (rounds toward zero), the semantics of `/` on the
/// machine integers; defined for positive divisors.
pub open spec fn tdivs(a: int, b: int) -> int {
    if a >= 0 {
        a / b
    } else {
        -((-a) / b)
    }
}

/// Truncating division never grows magnitude past `m` when `|a| <= m * b`.
pub proof fn lemma_tdivs_bound(a: int, b: int, m: int)
    requires
        b >= 1,
        m >= 0,
        -(m * b) <= a <= m * b,
    ensures
        -m <= tdivs(a, b) <= m,
{
    if a >= 0 {
        assert(a / b <= m) by (nonlinear_arith)
            requires b >= 1 && m >= 0 && a <= m * b && a >= 0;
        assert(a / b >= 0) by (nonlinear_arith)
            requires b >= 1 && a >= 0;
    } else {
        assert((-a) / b <= m) by (nonlinear_arith)
            requires b >= 1 && m >= 0 && -a <= m * b && -a >= 0;
        assert((-a) / b >= 0) by (nonlinear_arith)
            requires b >= 1 && -a >= 0;
    }
}

/// A product divided by one of its factors is the other factor exactly.
pub proof fn lemma_tdivs_exact(k: int, b: int)
    requires
        b >= 1,
    ensures
        tdivs(k * b, b) == k,
{
    if k >= 0 {
        assert((k * b) / b == k) by (nonlinear_arith)
            requires b >= 1 && k >= 0;
    } else {
        assert(k * b < 0) by (nonlinear_arith)
            requires b >= 1 && k < 0;
        assert((-(k * b)) / b == -k) by (nonlinear_arith)
            requires b >= 1 && k < 0;
    }
}

/// Truncating division on machine integers, matching `tdivs`.
pub fn div_trunc(a: i64, b: i64) -> (r: i64)
    requires
        b >= 1,
        a > i64::MIN,
    ensures
        r == tdivs(a as int, b as int),
        a >= 0 ==> 0 <= r <= a,
        a < 0 ==> a <= r <= 0,
{
    if a >= 0 {
        let q: u64 = (a as u64) / (b as u64);
        proof {
            assert((a as int) / (b as int) <= a as int) by (nonlinear_arith)
                requires b >= 1 && a >= 0;
            assert((a as int) / (b as int) >= 0) by (nonlinear_arith)
                requires b >= 1 && a >= 0;
        }
        q as i64
    } else {
        let q: u64 = ((-a) as u64) / (b as u64);
        proof {
            assert(((-a) as int) / (b as int) <= (-a) as int) by (nonlinear_arith)
                requires b >= 1 && a < 0;
            assert(((-a) as int) / (b as int) >= 0) by (nonlinear_arith)
                requires b >= 1 && a < 0;
        }
        -(q as i64)
    }
}

/// Magnitude bound of a product from bounds on its factors.
pub proof fn lemma_mul_bound(a: int, b: int, ma: int, mb: int)
    requires
        -ma <= a <= ma,
        -mb <= b <= mb,
        0 <= ma,
        0 <= mb,
    ensures
        -(ma * mb) <= a * b <= ma * mb,
{
    assert(-(ma * mb) <= a * b <= ma * mb) by (nonlinear_arith)
        requires -ma <= a <= ma && -mb <= b <= mb && 0 <= ma && 0 <= mb;
}

/// Fixed-point multiply with an explicit divisor: `(a * b) / d`, truncating.
pub fn fpmuldiv(a: i64, b: i64, d: i64) -> (r: i64)
    requires
        -128 * (FP_ONE as int) <= a <= 128 * (FP_ONE as int),
        -128 * (FP_ONE as int) <= b <= 128 * (FP_ONE as int),
        1 <= d,
    ensures
        r == tdivs(a as int * b as int, d as int),
        (a as int * b as int) >= 0 ==> 0 <= r <= (a as int * b as int),
        (a as int * b as int) < 0 ==> (a as int * b as int) <= r <= 0,
{
    proof {
        lemma_mul_bound(a as int, b as int, 128 * (FP_ONE as int), 128 * (FP_ONE as int));
        assert(128 * (FP_ONE as int) * (128 * (FP_ONE as int)) == 8514618045497344)
            by (nonlinear_arith);
    }
    div_trunc(a * b, d)
}

/// Euclidean remainder on machine integers: the result is always in `[0, b)`.
pub fn emod(a: i64, b: i64) -> (r: i64)
    requires
        1 <= b,
        i64::MIN < a,
    ensures
        r == (a as int) % (b as int),
        0 <= r < b,
{
    if a >= 0 {
        ((a as u64) % (b as u64)) as i64
    } else {
        let n: u64 = (-a) as u64;
        let q: u64 = n / (b as u64);
        let m: u64 = n % (b as u64);
        proof {
            vstd::arithmetic::div_mod::lemma_fundamental_div_mod(n as int, b as int);
            if m == 0 {
                vstd::arithmetic::div_mod::lemma_mod_multiples_vanish(
                    q as int, a as int, b as int);
                assert((b * q + a) as int == 0);
                vstd::arithmetic::div_mod::lemma_small_mod(0, b as nat);
            } else {
                vstd::arithmetic::div_mod::lemma_mod_multiples_vanish(
                    q as int + 1, a as int, b as int);
                assert(b * (q + 1) + a == b - m) by {
                    assert(b * (q + 1) == b * q + b) by (nonlinear_arith);
                }
                vstd::arithmetic::div_mod::lemma_small_mod((b - m) as nat, b as nat);
            }
        }
        if m == 0 {
            0
        } else {
            b - (m as i64)
        }
    }
}

/// The floor of the real square root of a nonnegative integer.
pub open spec fn sqrt_floor(n: int) -> int {
    choose|r: int| 0 <= r && #[trigger] (r * r) <= n && n < (r + 1) * (r + 1)
}

/// `sqrt_floor` is pinned by its bracketing property.
pub proof fn lemma_sqrt_floor_unique(n: int, r: int)
    requires
        0 <= r,
        r * r <= n,
        n < (r + 1) * (r + 1),
    ensures
        sqrt_floor(n) == r,
{
    assert(0 <= r && r * r <= n && n < (r + 1) * (r + 1));
    let s = sqrt_floor(n);
    assert(0 <= s && s * s <= n && n < (s + 1) * (s + 1));
    assert(s == r) by (nonlinear_arith)
        requires
            0 <= r && r * r <= n && n < (r + 1) * (r + 1),
            0 <= s && s * s <= n && n < (s + 1) * (s + 1);
}

/// Integer square root by bisection.
pub fn isqrt(n: u64) -> (r: u64)
    requires
        n < 0x4000_0000_0000_0000u64,
    ensures
        r * r <= n,
        n < (r + 1) * (r + 1),
        r == sqrt_floor(n as int),
{
    if n == 0 {
        proof {
            lemma_sqrt_floor_unique(0, 0);
        }
        return 0;
    }
    let mut lo: u64 = 0;
    let mut hi: u64 = 0x8000_0000u64;
    proof {
        assert(hi * hi > n);
    }
    while lo + 1 < hi
        invariant
            lo < hi <= 0x8000_0000u64,
            lo * lo <= n,
            hi * hi > n,
        decreases hi - lo,
    {
        let mid: u64 = lo + (hi - lo) / 2;
        proof {
            assert(lo < mid < hi);
            assert(mid * mid < 0x4000_0000_0000_0000u64) by (nonlinear_arith)
                requires mid < 0x8000_0000u64;
        }
        if mid * mid <= n {
            lo = mid;
        } else {
            hi = mid;
        }
    }
    proof {
        assert(hi == lo + 1);
        lemma_sqrt_floor_unique(n as int, lo as int);
    }
    lo
}

} // verus!

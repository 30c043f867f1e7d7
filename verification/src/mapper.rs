//! Toroidal coordinate mapping.
//!
//! An output index `x` in `[0, out)` is mapped onto the lattice axis of
//! `scale` cells as the exact rational `x * scale / out`: its floor picks the
//! left (or top) neighbor, the next index wraps to zero when it would equal
//! `scale`, and the remainder is the fractional offset within the cell.

use vstd::prelude::*;

use crate::fixed::FP_ONE;
use crate::fixed::lemma_tdivs_bound;
use crate::fixed::tdivs;

verus! {

/// The neighbor index after `floor_idx` on a toroidal axis of `scale` cells.
pub open spec fn wrap_next(floor_idx: int, scale: int) -> int {
    if floor_idx + 1 == scale {
        0
    } else {
        floor_idx + 1
    }
}

/// One output position mapped onto a lattice axis: the floor neighbor, the
/// wrapped next neighbor, and the fractional offset `num / den`.
pub struct AxisPoint {
    pub floor_idx: u64,
    pub wrapped_idx: u64,
    pub num: u64,
    pub den: u64,
}

/// Toroidal wrap correctness: on the last cell the next neighbor is the
/// first cell, never `scale` itself.
pub proof fn lemma_toroidal_wrap(floor_idx: int, scale: int)
    requires
        floor_idx == scale - 1,
    ensures
        wrap_next(floor_idx, scale) == 0,
{
}

/// Map output index `x` of an axis of length `out` onto a lattice axis of
/// `scale` cells.
pub fn map_axis(x: u64, scale: u64, out: u64) -> (m: AxisPoint)
    requires
        1 <= scale <= 0xFFFF_FFFFu64,
        1 <= out <= 0xFFFF_FFFFu64,
        x < out,
    ensures
        m.den == out,
        m.floor_idx == ((x * scale) as int) / (out as int),
        m.num == (x * scale) as int % out as int,
        m.num < m.den,
        m.floor_idx < scale,
        m.wrapped_idx == wrap_next(m.floor_idx as int, scale as int),
        m.wrapped_idx < scale,
{
    proof {
        assert(x * scale <= (out - 1) * scale) by (nonlinear_arith)
            requires x < out && scale >= 1;
        assert((out - 1) * scale < out * scale) by (nonlinear_arith)
            requires out >= 1 && scale >= 1;
        assert(out * scale <= 0xFFFF_FFFFu64 * 0xFFFF_FFFFu64) by (nonlinear_arith)
            requires 1 <= scale <= 0xFFFF_FFFFu64 && 1 <= out <= 0xFFFF_FFFFu64;
        assert(((x * scale) as int) / (out as int) < scale) by (nonlinear_arith)
            requires
                x * scale < out * scale && out >= 1 && scale >= 1;
    }
    let prod: u64 = x * scale;
    let floor_idx: u64 = prod / out;
    let num: u64 = prod % out;
    let wrapped_idx: u64 = if floor_idx + 1 == scale {
        0
    } else {
        floor_idx + 1
    };
    AxisPoint { floor_idx, wrapped_idx, num, den: out }
}

/// Coverage of the unit cell: the fractional offset of every mapped output
/// coordinate, taken as a fixed-point value, lies in `[0, FP_ONE)`.
pub proof fn lemma_offset_range(x: int, scale: int, out: int)
    requires
        1 <= scale,
        1 <= out,
    ensures
        0 <= (x * scale) % out < out,
        0 <= tdivs(((x * scale) % out) * FP_ONE, out) < FP_ONE,
{
    let num = (x * scale) % out;
    assert(0 <= num < out) by (nonlinear_arith)
        requires out >= 1 && num == (x * scale) % out;
    assert(num * FP_ONE < out * FP_ONE) by (nonlinear_arith)
        requires num < out;
    assert(0 <= num * FP_ONE) by (nonlinear_arith)
        requires num >= 0;
    assert((num * FP_ONE) / out < FP_ONE) by (nonlinear_arith)
        requires 0 <= num * FP_ONE < out * FP_ONE && out >= 1;
    assert((num * FP_ONE) / out >= 0) by (nonlinear_arith)
        requires num * FP_ONE >= 0 && out >= 1;
}

/// The fractional offset `num / den` as a fixed-point value in
/// `[0, FP_ONE)`: coverage of the unit cell, never reaching the next one.
pub fn frac_to_fp(num: u64, den: u64) -> (t: i64)
    requires
        1 <= den <= 0xFFFF_FFFFu64,
        num < den,
    ensures
        t == tdivs(num as int * FP_ONE as int, den as int),
        0 <= t < FP_ONE,
        num == 0 ==> t == 0,
{
    proof {
        assert(num * (FP_ONE as u64) < den * (FP_ONE as u64)) by (nonlinear_arith)
            requires num < den;
        assert(den * (FP_ONE as u64) <= 0xFFFF_FFFFu64 * (FP_ONE as u64))
            by (nonlinear_arith)
            requires den <= 0xFFFF_FFFFu64;
    }
    let t: u64 = (num * (FP_ONE as u64)) / den;
    proof {
        assert(((num * (FP_ONE as u64)) as int) / (den as int) < FP_ONE) by (nonlinear_arith)
            requires
                num * (FP_ONE as u64) < den * (FP_ONE as u64) && den >= 1;
        assert(num == 0 ==> ((num * (FP_ONE as u64)) as int) / (den as int) == 0)
            by (nonlinear_arith)
            requires den >= 1;
    }
    t as i64
}

} // verus!

//! The 1D noise kernels.
//!
//! A kernel owns a seeded scalar lattice in `[-FP_ONE, FP_ONE]` and an
//! eagerly precomputed output sequence; `PNoise1` additionally walks that
//! sequence with a wrapping cursor, an infinite but restartable producer.

use vstd::arithmetic::div_mod::lemma_mod_add_multiples_vanish;
use vstd::arithmetic::div_mod::lemma_mod_self_0;
use vstd::arithmetic::div_mod::lemma_small_mod;
use vstd::prelude::*;

use crate::config::ConfigError;
use crate::ease::Ease;
use crate::ease::ease;
use crate::ease::spec_ease;
use crate::fixed::FP_ONE;
use crate::fixed::fpmuldiv;
use crate::fixed::lemma_mul_bound;
use crate::fixed::lemma_tdivs_bound;
use crate::fixed::tdivs;
use crate::mapper::frac_to_fp;
use crate::mapper::map_axis;
use crate::mapper::wrap_next;
use crate::rng::chacha_byte;
use crate::rng::chacha_stream;

verus! {

/// The `k`-th 64-bit little-endian word of the seeded byte stream.
pub open spec fn le_word(seed: u64, k: int) -> int {
    chacha_byte(seed, 8 * k) as int + 256 * (chacha_byte(seed, 8 * k + 1) as int + 256 * (
    chacha_byte(seed, 8 * k + 2) as int + 256 * (chacha_byte(seed, 8 * k + 3) as int + 256 * (
    chacha_byte(seed, 8 * k + 4) as int + 256 * (chacha_byte(seed, 8 * k + 5) as int + 256 * (
    chacha_byte(seed, 8 * k + 6) as int + 256 * (chacha_byte(seed, 8 * k + 7) as int)))))))
}

/// The `k`-th lattice cell for a seed: a uniform fixed-point value in
/// `[-FP_ONE, FP_ONE]`.
pub open spec fn cell_scalar(seed: u64, k: int) -> int {
    le_word(seed, k) % (2 * FP_ONE as int + 1) - FP_ONE
}

/// Build the scalar lattice of `n` cells from the seeded stream.
pub fn scalar_lattice(seed: u64, n: usize) -> (g: Vec<i64>)
    requires
        8 * n <= usize::MAX,
    ensures
        g@.len() == n,
        forall|k: int| 0 <= k < n ==> g@[k] == cell_scalar(seed, k),
        forall|k: int| 0 <= k < n ==> -FP_ONE <= #[trigger] g@[k] <= FP_ONE,
{
    let bytes = chacha_stream(seed, n * 8);
    let mut g: Vec<i64> = Vec::new();
    let mut k: usize = 0;
    while k < n
        invariant
            8 * n <= usize::MAX,
            k <= n,
            g@.len() == k,
            bytes@.len() == 8 * n,
            forall|j: int| 0 <= j < 8 * n ==> bytes@[j] == chacha_byte(seed, j),
            forall|j: int| 0 <= j < k ==> g@[j] == cell_scalar(seed, j),
            forall|j: int| 0 <= j < k ==> -FP_ONE <= #[trigger] g@[j] <= FP_ONE,
        decreases n - k,
    {
        let base: usize = 8 * k;
        let b0 = bytes[base] as u64;
        let b1 = bytes[base + 1] as u64;
        let b2 = bytes[base + 2] as u64;
        let b3 = bytes[base + 3] as u64;
        let b4 = bytes[base + 4] as u64;
        let b5 = bytes[base + 5] as u64;
        let b6 = bytes[base + 6] as u64;
        let b7 = bytes[base + 7] as u64;
        let w: u64 = b0 + 256 * (b1 + 256 * (b2 + 256 * (b3 + 256 * (b4 + 256 * (b5 + 256 * (b6
            + 256 * b7))))));
        let m: u64 = w % 1441793u64;
        let v: i64 = (m as i64) - FP_ONE;
        proof {
            assert(w as int == le_word(seed, k as int));
            assert(v == cell_scalar(seed, k as int));
        }
        g.push(v);
        k += 1;
    }
    g
}

/// The interpolated sample of the 1D kernel at output index `x`.
pub open spec fn interp1_at(
    seed: u64, grid_len: int, output_len: int, law: Ease, x: int,
) -> int {
    let fl = (x * grid_len) / output_len;
    let wr = wrap_next(fl, grid_len);
    let t = tdivs(((x * grid_len) % output_len) * FP_ONE, output_len);
    spec_ease(law, t, cell_scalar(seed, fl), cell_scalar(seed, wr))
}

/// The 1D noise kernel: a seeded lattice, its eagerly interpolated output
/// sequence, and a wrapping cursor over that sequence.
pub struct PNoise1 {
    pub grid: Vec<i64>,
    pub grid_len: usize,
    pub output: Vec<i64>,
    pub output_len: usize,
    pub seed: u64,
    pub x: usize,
}

impl PNoise1 {
    /// The cursor of the cyclic producer.
    pub open spec fn cursor(self) -> int {
        self.x as int
    }

    /// Well-formedness: the stored lengths match and the cursor is in range.
    pub open spec fn wf(self) -> bool {
        &&& self.grid@.len() == self.grid_len
        &&& self.output@.len() == self.output_len
        &&& 1 <= self.grid_len
        &&& 1 <= self.output_len
        &&& 0 <= self.cursor() < self.output_len
    }

    /// The kernel is exactly the one that the given parameters produce:
    /// lattice and output sequence are pure functions of seed, dimensions
    /// and law.
    pub open spec fn is_made_from(
        self, seed: u64, grid_len: int, output_len: int, law: Ease,
    ) -> bool {
        &&& self.seed == seed
        &&& self.grid_len == grid_len
        &&& self.output_len == output_len
        &&& self.grid@.len() == grid_len
        &&& self.output@.len() == output_len
        &&& forall|k: int| 0 <= k < grid_len ==> #[trigger] self.grid@[k] == cell_scalar(seed, k)
        &&& forall|i: int| 0 <= i < output_len ==> #[trigger] self.output@[i] == interp1_at(
            seed, grid_len, output_len, law, i)
    }

    /// Build the lattice from the seed, then interpolate the whole output
    /// sequence eagerly with the chosen law.
    pub fn new(seed: u64, grid_len: usize, output_len: usize, ease_law: Ease) -> (s: Self)
        requires
            1 <= grid_len <= 0xFFFF_FFFFusize,
            1 <= output_len <= 0xFFFF_FFFFusize,
            8 * grid_len <= usize::MAX,
        ensures
            s.wf(),
            s.cursor() == 0,
            s.is_made_from(seed, grid_len as int, output_len as int, ease_law),
    {
        let grid = scalar_lattice(seed, grid_len);
        let mut output: Vec<i64> = Vec::new();
        let mut x: usize = 0;
        while x < output_len
            invariant
                x <= output_len,
                output@.len() == x,
                1 <= grid_len <= 0xFFFF_FFFFusize,
                1 <= output_len <= 0xFFFF_FFFFusize,
                grid@.len() == grid_len,
                forall|k: int| 0 <= k < grid_len ==> grid@[k] == cell_scalar(seed, k),
                forall|k: int| 0 <= k < grid_len ==> -FP_ONE <= #[trigger] grid@[k] <= FP_ONE,
                forall|i: int| 0 <= i < x ==> output@[i] == interp1_at(
                    seed, grid_len as int, output_len as int, ease_law, i),
            decreases output_len - x,
        {
            let m = map_axis(x as u64, grid_len as u64, output_len as u64);
            let t = frac_to_fp(m.num, m.den);
            let left = grid[m.floor_idx as usize];
            let right = grid[m.wrapped_idx as usize];
            let v = ease(ease_law, t, left, right);
            output.push(v);
            x += 1;
        }
        PNoise1 { grid, grid_len, output, output_len, seed, x: 0 }
    }

    /// Build a kernel after checking the configuration: zero-sized
    /// dimensions and dimensions past the addressable range are refused with
    /// an error, never clamped.
    pub fn try_new(seed: u64, grid_len: usize, output_len: usize, ease_law: Ease) -> (r:
        Result<Self, ConfigError>)
        ensures
            (grid_len == 0 || output_len == 0) ==> r == Err::<Self, ConfigError>(
                ConfigError::ZeroDimension),
            (grid_len >= 1 && output_len >= 1 && (grid_len > 0xFFFF_FFFFusize || output_len
                > 0xFFFF_FFFFusize || grid_len > usize::MAX / 8)) ==> r == Err::<
                Self, ConfigError>(ConfigError::TooLarge),
            (grid_len >= 1 && output_len >= 1 && grid_len <= 0xFFFF_FFFFusize && output_len
                <= 0xFFFF_FFFFusize && grid_len <= usize::MAX / 8) ==> (r matches Ok(s)
                && s.wf() && s.cursor() == 0 && s.is_made_from(seed, grid_len as int,
                output_len as int, ease_law)),
    {
        if grid_len == 0 || output_len == 0 {
            Err(ConfigError::ZeroDimension)
        } else if grid_len > 0xFFFF_FFFFusize || output_len > 0xFFFF_FFFFusize || grid_len
            > usize::MAX / 8 {
            Err(ConfigError::TooLarge)
        } else {
            Ok(Self::new(seed, grid_len, output_len, ease_law))
        }
    }

    /// Hand out the sample under the cursor and advance it, wrapping after
    /// the last element: an infinite, restartable producer. Nothing but the
    /// cursor changes; the precomputed sequence is never altered.
    pub fn next(&mut self) -> (r: Option<i64>)
        requires
            old(self).wf(),
        ensures
            final(self).wf(),
            r == Some(old(self).output@[old(self).cursor()]),
            final(self).grid == old(self).grid,
            final(self).output == old(self).output,
            final(self).grid_len == old(self).grid_len,
            final(self).output_len == old(self).output_len,
            final(self).seed == old(self).seed,
            final(self).cursor() == if old(self).cursor() + 1 == old(self).output_len {
                0int
            } else {
                old(self).cursor() + 1
            },
    {
        let result = self.output[self.x];
        if self.x == self.output_len - 1 {
            self.x = 0;
        } else {
            self.x = self.x + 1;
        }
        Some(result)
    }
}

/// Determinism of the 1D kernel: two kernels made from the same seed,
/// dimensions and law hold bit-identical lattices and output sequences.
pub proof fn lemma_pnoise1_deterministic(
    a: PNoise1, b: PNoise1, seed: u64, grid_len: int, output_len: int, law: Ease,
)
    requires
        a.is_made_from(seed, grid_len, output_len, law),
        b.is_made_from(seed, grid_len, output_len, law),
    ensures
        a.grid@ == b.grid@,
        a.output@ == b.output@,
{
    assert(a.grid@ =~= b.grid@);
    assert(a.output@ =~= b.output@);
}

/// The value produced at step `k` of the cyclic walk of `o` that starts at
/// cursor `c`.
pub open spec fn cyclic_at(o: Seq<i64>, c: int, k: int) -> i64 {
    o[(c + k) % (o.len() as int)]
}

/// Cyclic restart: after `o.len()` further steps the production sequence is
/// back at the same value, for every step and start.
pub proof fn lemma_cyclic_restart(o: Seq<i64>, c: int, k: int)
    requires
        o.len() >= 1,
    ensures
        cyclic_at(o, c, k + o.len() as int) == cyclic_at(o, c, k),
{
    let n = o.len() as int;
    lemma_mod_add_multiples_vanish(c + k, n);
}

/// The wrapping cursor step is addition modulo the sequence length.
pub proof fn lemma_cursor_step(c: int, n: int)
    requires
        0 <= c < n,
    ensures
        (if c + 1 == n { 0int } else { c + 1 }) == (c + 1) % n,
{
    if c + 1 == n {
        lemma_mod_self_0(n);
    } else {
        lemma_small_mod((c + 1) as nat, n as nat);
    }
}

/// The interpolated sample of the gradient-style 1D kernel at output index
/// `x`: each neighbor is scaled by its own fractional weight and the two
/// parts are blended by the same weights again.
pub open spec fn interp0_at(seed: u64, grid_len: int, output_len: int, x: int) -> int {
    let fl = (x * grid_len) / output_len;
    let wr = wrap_next(fl, grid_len);
    let t = tdivs(((x * grid_len) % output_len) * FP_ONE, output_len);
    let a = tdivs(cell_scalar(seed, fl) * t, FP_ONE as int);
    let b = tdivs(cell_scalar(seed, wr) * (FP_ONE - t), FP_ONE as int);
    tdivs(a * t, FP_ONE as int) + tdivs(b * (FP_ONE - t), FP_ONE as int)
}

/// The first, gradient-style 1D noise kernel: fixed quadratic weighting
/// instead of a pluggable law.
pub struct Noise1V0 {
    pub grid: Vec<i64>,
    pub grid_len: usize,
    pub output: Vec<i64>,
    pub output_len: usize,
    pub seed: u64,
}

impl Noise1V0 {
    /// The kernel is exactly the one that the parameters produce.
    pub open spec fn is_made_from(self, seed: u64, grid_len: int, output_len: int) -> bool {
        &&& self.seed == seed
        &&& self.grid_len == grid_len
        &&& self.output_len == output_len
        &&& self.grid@.len() == grid_len
        &&& self.output@.len() == output_len
        &&& forall|k: int| 0 <= k < grid_len ==> #[trigger] self.grid@[k] == cell_scalar(seed, k)
        &&& forall|i: int| 0 <= i < output_len ==> #[trigger] self.output@[i] == interp0_at(
            seed, grid_len, output_len, i)
    }

    /// Build the lattice from the seed and interpolate the whole output
    /// sequence with the fixed quadratic weighting.
    pub fn new(seed: u64, grid_len: usize, output_len: usize) -> (s: Self)
        requires
            1 <= grid_len <= 0xFFFF_FFFFusize,
            1 <= output_len <= 0xFFFF_FFFFusize,
            8 * grid_len <= usize::MAX,
        ensures
            s.is_made_from(seed, grid_len as int, output_len as int),
    {
        let grid = scalar_lattice(seed, grid_len);
        let mut output: Vec<i64> = Vec::new();
        let mut x: usize = 0;
        while x < output_len
            invariant
                x <= output_len,
                output@.len() == x,
                1 <= grid_len <= 0xFFFF_FFFFusize,
                1 <= output_len <= 0xFFFF_FFFFusize,
                grid@.len() == grid_len,
                forall|k: int| 0 <= k < grid_len ==> grid@[k] == cell_scalar(seed, k),
                forall|k: int| 0 <= k < grid_len ==> -FP_ONE <= #[trigger] grid@[k] <= FP_ONE,
                forall|i: int| 0 <= i < x ==> output@[i] == interp0_at(
                    seed, grid_len as int, output_len as int, i),
            decreases output_len - x,
        {
            let m = map_axis(x as u64, grid_len as u64, output_len as u64);
            let t = frac_to_fp(m.num, m.den);
            let left = grid[m.floor_idx as usize];
            let right = grid[m.wrapped_idx as usize];
            let a = fpmuldiv(left, t, FP_ONE);
            proof {
                lemma_mul_bound(left as int, t as int, FP_ONE as int, FP_ONE as int);
                lemma_tdivs_bound(left as int * t as int, FP_ONE as int, FP_ONE as int);
            }
            let b = fpmuldiv(right, FP_ONE - t, FP_ONE);
            proof {
                lemma_mul_bound(right as int, (FP_ONE - t) as int, FP_ONE as int,
                    FP_ONE as int);
                lemma_tdivs_bound(right as int * (FP_ONE - t) as int, FP_ONE as int,
                    FP_ONE as int);
            }
            let va = fpmuldiv(a, t, FP_ONE);
            proof {
                lemma_mul_bound(a as int, t as int, FP_ONE as int, FP_ONE as int);
                lemma_tdivs_bound(a as int * t as int, FP_ONE as int, FP_ONE as int);
            }
            let vb = fpmuldiv(b, FP_ONE - t, FP_ONE);
            proof {
                lemma_mul_bound(b as int, (FP_ONE - t) as int, FP_ONE as int, FP_ONE as int);
                lemma_tdivs_bound(b as int * (FP_ONE - t) as int, FP_ONE as int,
                    FP_ONE as int);
            }
            output.push(va + vb);
            x += 1;
        }
        Noise1V0 { grid, grid_len, output, output_len, seed }
    }
}

/// The first output sample of the 1D kernel is the first lattice cell,
/// exactly, for every seed, law and dimensions: the fractional offset at the
/// first coordinate is zero, and every law starts at its left value.
pub proof fn lemma_first_sample(seed: u64, grid_len: int, output_len: int, law: Ease)
    requires
        1 <= grid_len,
        1 <= output_len,
    ensures
        interp1_at(seed, grid_len, output_len, law, 0) == cell_scalar(seed, 0),
{
    let fl = (0 * grid_len) / output_len;
    assert(fl == 0);
    assert((0 * grid_len) % output_len == 0);
    assert(tdivs(0 * FP_ONE, output_len) == 0);
    crate::ease::lemma_ease_boundary(law, cell_scalar(seed, 0),
        cell_scalar(seed, wrap_next(0, grid_len)));
}

impl Noise1V0 {
    /// Build a kernel after checking the configuration: zero-sized
    /// dimensions and dimensions past the addressable range are refused with
    /// an error, never clamped.
    pub fn try_new(seed: u64, grid_len: usize, output_len: usize) -> (r: Result<
        Self, ConfigError>)
        ensures
            (grid_len == 0 || output_len == 0) ==> r == Err::<Self, ConfigError>(
                ConfigError::ZeroDimension),
            (grid_len >= 1 && output_len >= 1 && (grid_len > 0xFFFF_FFFFusize || output_len
                > 0xFFFF_FFFFusize || grid_len > usize::MAX / 8)) ==> r == Err::<
                Self, ConfigError>(ConfigError::TooLarge),
            (grid_len >= 1 && output_len >= 1 && grid_len <= 0xFFFF_FFFFusize && output_len
                <= 0xFFFF_FFFFusize && grid_len <= usize::MAX / 8) ==> (r matches Ok(s)
                && s.is_made_from(seed, grid_len as int, output_len as int)),
    {
        if grid_len == 0 || output_len == 0 {
            Err(ConfigError::ZeroDimension)
        } else if grid_len > 0xFFFF_FFFFusize || output_len > 0xFFFF_FFFFusize || grid_len
            > usize::MAX / 8 {
            Err(ConfigError::TooLarge)
        } else {
            Ok(Self::new(seed, grid_len, output_len))
        }
    }
}

/// Determinism of the gradient-style 1D kernel.
pub proof fn lemma_noise1v0_deterministic(
    a: Noise1V0, b: Noise1V0, seed: u64, grid_len: int, output_len: int,
)
    requires
        a.is_made_from(seed, grid_len, output_len),
        b.is_made_from(seed, grid_len, output_len),
    ensures
        a.grid@ == b.grid@,
        a.output@ == b.output@,
{
    assert(a.grid@ =~= b.grid@);
    assert(a.output@ =~= b.output@);
}

} // verus!

//! The 2D noise kernels.
//!
//! A kernel holds output and lattice dimensions plus a seed; `make_noise`
//! builds the seeded lattice, maps every output coordinate onto it
//! toroidally, and hands the four wrapped neighbors with their fractional
//! offsets (or inverse-distance weights) to a pluggable blend strategy.

use vstd::prelude::*;

use crate::config::ConfigError;
use crate::fixed::FP_ONE;
use crate::fixed::div_trunc;
use crate::fixed::isqrt;
use crate::fixed::lemma_tdivs_bound;
use crate::fixed::sqrt_floor;
use crate::fixed::tdivs;
use crate::mapper::frac_to_fp;
use crate::mapper::map_axis;
use crate::mapper::wrap_next;
use crate::noise1d::cell_scalar;
use crate::noise1d::scalar_lattice;
use crate::rng::chacha_byte;
use crate::rng::chacha_stream;

verus! {

/// A two-component lattice vector in fixed point.
#[derive(Clone, Copy, Debug, PartialEq, Eq, Structural)]
pub struct Vec2 {
    pub x: i64,
    pub y: i64,
}

/// A four-channel output sample in fixed point.
#[derive(Clone, Copy, Debug, PartialEq, Eq, Structural)]
pub struct Vec4 {
    pub x: i64,
    pub y: i64,
    pub z: i64,
    pub w: i64,
}

/// A four-channel byte color.
#[derive(Clone, Copy, Debug, PartialEq, Eq, Structural)]
pub struct Rgba {
    pub r: u8,
    pub g: u8,
    pub b: u8,
    pub a: u8,
}

/// Both components within one fixed-point unit.
pub open spec fn vec2_in_unit(v: Vec2) -> bool {
    &&& -FP_ONE <= v.x <= FP_ONE
    &&& -FP_ONE <= v.y <= FP_ONE
}

/// A rectangular field of samples, stored row by row.
pub struct Grid<T> {
    pub cells: Vec<T>,
    pub width: usize,
    pub height: usize,
}

impl<T> Grid<T> {
    /// The backing vector holds exactly one cell per coordinate.
    pub open spec fn wf(self) -> bool {
        self.cells@.len() == self.width * self.height
    }

    /// The sample at a coordinate.
    pub open spec fn at(self, x: int, y: int) -> T {
        self.cells@[y * self.width + x]
    }

    /// Read the sample at a coordinate.
    pub fn get(&self, x: usize, y: usize) -> (c: &T)
        requires
            self.wf(),
            x < self.width,
            y < self.height,
        ensures
            *c == self.at(x as int, y as int),
    {
        let n = self.cells.len();
        proof {
            assert(y * self.width + x < self.width * self.height) by (nonlinear_arith)
                requires x < self.width && y < self.height;
            assert(y * self.width + x < n);
        }
        &self.cells[y * self.width + x]
    }
}

// ---------------------------------------------------------------------------
// Lattices.
// ---------------------------------------------------------------------------

/// The first component of lattice cell `k` after normalization.
pub open spec fn cell_vec_x(seed: u64, k: int) -> int {
    let vx = cell_scalar(seed, 2 * k);
    let vy = cell_scalar(seed, 2 * k + 1);
    let mag = sqrt_floor(vx * vx + vy * vy);
    if mag == 0 {
        0
    } else {
        tdivs(vx * FP_ONE, mag)
    }
}

/// The second component of lattice cell `k` after normalization.
pub open spec fn cell_vec_y(seed: u64, k: int) -> int {
    let vx = cell_scalar(seed, 2 * k);
    let vy = cell_scalar(seed, 2 * k + 1);
    let mag = sqrt_floor(vx * vx + vy * vy);
    if mag == 0 {
        0
    } else {
        tdivs(vy * FP_ONE, mag)
    }
}

/// Scale a raw lattice vector to unit length (a zero draw stays zero).
fn normalize(vx: i64, vy: i64) -> (v: Vec2)
    requires
        -FP_ONE <= vx <= FP_ONE,
        -FP_ONE <= vy <= FP_ONE,
    ensures
        ({
            let mag = sqrt_floor(vx as int * vx as int + vy as int * vy as int);
            (if mag == 0 { v.x == 0 } else { v.x == tdivs(vx as int * FP_ONE, mag) })
            && (if mag == 0 { v.y == 0 } else { v.y == tdivs(vy as int * FP_ONE, mag) })
        }),
        vec2_in_unit(v),
{
    proof {
        assert(0 <= vx as int * vx as int <= (FP_ONE as int) * (FP_ONE as int))
            by (nonlinear_arith)
            requires -FP_ONE <= vx <= FP_ONE;
        assert(0 <= vy as int * vy as int <= (FP_ONE as int) * (FP_ONE as int))
            by (nonlinear_arith)
            requires -FP_ONE <= vy <= FP_ONE;
    }
    let d: i64 = vx * vx + vy * vy;
    let mag: u64 = isqrt(d as u64);
    if mag == 0 {
        Vec2 { x: 0, y: 0 }
    } else {
        proof {
            assert(vx as int * vx as int <= d) by (nonlinear_arith)
                requires d == vx as int * vx as int + vy as int * vy as int;
            assert(vy as int * vy as int <= d) by (nonlinear_arith)
                requires d == vx as int * vx as int + vy as int * vy as int;
            assert(-(mag as int) <= vx as int <= mag as int) by (nonlinear_arith)
                requires
                    vx as int * vx as int <= d && d < (mag as int + 1) * (mag as int + 1)
                        && mag >= 1;
            assert(-(mag as int) <= vy as int <= mag as int) by (nonlinear_arith)
                requires
                    vy as int * vy as int <= d && d < (mag as int + 1) * (mag as int + 1)
                        && mag >= 1;
            assert(-(mag as int) * FP_ONE <= vx as int * FP_ONE <= (mag as int) * FP_ONE)
                by (nonlinear_arith)
                requires -(mag as int) <= vx as int <= mag as int;
            assert(-(mag as int) * FP_ONE <= vy as int * FP_ONE <= (mag as int) * FP_ONE)
                by (nonlinear_arith)
                requires -(mag as int) <= vy as int <= mag as int;
            assert((mag as int) * FP_ONE == FP_ONE as int * mag as int) by (nonlinear_arith);
            assert(mag <= 2000000) by (nonlinear_arith)
                requires
                    mag as int * mag as int <= 2 * (FP_ONE as int) * (FP_ONE as int);
            lemma_tdivs_bound(vx as int * FP_ONE, mag as int, FP_ONE as int);
            lemma_tdivs_bound(vy as int * FP_ONE, mag as int, FP_ONE as int);
        }
        let nx = div_trunc(vx * FP_ONE, mag as i64);
        let ny = div_trunc(vy * FP_ONE, mag as i64);
        Vec2 { x: nx, y: ny }
    }
}

/// Build the lattice of `n` normalized vectors; cell `k` consumes the stream
/// scalars `2 k` and `2 k + 1`, in cell order.
pub fn vector_lattice(seed: u64, n: usize) -> (g: Vec<Vec2>)
    requires
        16 * n <= usize::MAX,
    ensures
        g@.len() == n,
        forall|k: int| 0 <= k < n ==> (#[trigger] g@[k]).x == cell_vec_x(seed, k)
            && g@[k].y == cell_vec_y(seed, k),
        forall|k: int| 0 <= k < n ==> vec2_in_unit(#[trigger] g@[k]),
{
    let raw = scalar_lattice(seed, 2 * n);
    let mut g: Vec<Vec2> = Vec::new();
    let mut k: usize = 0;
    while k < n
        invariant
            k <= n,
            16 * n <= usize::MAX,
            g@.len() == k,
            raw@.len() == 2 * n,
            forall|j: int| 0 <= j < 2 * n ==> raw@[j] == cell_scalar(seed, j),
            forall|j: int| 0 <= j < 2 * n ==> -FP_ONE <= #[trigger] raw@[j] <= FP_ONE,
            forall|j: int| 0 <= j < k ==> (#[trigger] g@[j]).x == cell_vec_x(seed, j)
                && g@[j].y == cell_vec_y(seed, j),
            forall|j: int| 0 <= j < k ==> vec2_in_unit(#[trigger] g@[j]),
        decreases n - k,
    {
        let v = normalize(raw[2 * k], raw[2 * k + 1]);
        g.push(v);
        k += 1;
    }
    g
}

/// Lattice cell `k` of a color lattice: three stream bytes and a fixed alpha.
pub open spec fn cell_color(seed: u64, k: int, alpha: u8) -> Rgba {
    Rgba {
        r: chacha_byte(seed, 3 * k),
        g: chacha_byte(seed, 3 * k + 1),
        b: chacha_byte(seed, 3 * k + 2),
        a: alpha,
    }
}

/// Build the color lattice of `n` cells, three stream bytes per cell in cell
/// order, with the given fixed alpha.
pub fn color_lattice(seed: u64, n: usize, alpha: u8) -> (g: Vec<Rgba>)
    requires
        3 * n <= usize::MAX,
    ensures
        g@.len() == n,
        forall|k: int| 0 <= k < n ==> g@[k] == cell_color(seed, k, alpha),
    {
    let bytes = chacha_stream(seed, 3 * n);
    let mut g: Vec<Rgba> = Vec::new();
    let mut k: usize = 0;
    while k < n
        invariant
            k <= n,
            3 * n <= usize::MAX,
            g@.len() == k,
            bytes@.len() == 3 * n,
            forall|j: int| 0 <= j < 3 * n ==> bytes@[j] == chacha_byte(seed, j),
            forall|j: int| 0 <= j < k ==> g@[j] == cell_color(seed, j, alpha),
        decreases n - k,
    {
        let c = Rgba { r: bytes[3 * k], g: bytes[3 * k + 1], b: bytes[3 * k + 2], a: alpha };
        g.push(c);
        k += 1;
    }
    g
}

// ---------------------------------------------------------------------------
// Distance weights.
// ---------------------------------------------------------------------------

/// The distance from a corner of the unit cell, scaled by the diagonal: in
/// `[0, FP_ONE]` for offsets within the cell.
pub open spec fn corner_dist(dx: int, dy: int) -> int {
    tdivs(
        sqrt_floor(dx * dx + dy * dy) * FP_ONE,
        sqrt_floor(2 * (FP_ONE as int) * (FP_ONE as int)),
    )
}

/// A corner weight: the scaled distance itself, or one minus it.
pub open spec fn corner_weight(dx: int, dy: int, invert: bool) -> int {
    if invert {
        FP_ONE - corner_dist(dx, dy)
    } else {
        corner_dist(dx, dy)
    }
}

/// Compute the scaled corner distance.
fn corner_dist_fp(dx: i64, dy: i64) -> (d: i64)
    requires
        0 <= dx <= FP_ONE,
        0 <= dy <= FP_ONE,
    ensures
        d == corner_dist(dx as int, dy as int),
        0 <= d <= FP_ONE,
{
    proof {
        assert(0 <= dx as int * dx as int + dy as int * dy as int <= 2 * (FP_ONE as int) * (
        FP_ONE as int)) by (nonlinear_arith)
            requires 0 <= dx <= FP_ONE && 0 <= dy <= FP_ONE;
    }
    let s2: i64 = dx * dx + dy * dy;
    let dist: u64 = isqrt(s2 as u64);
    let sq2: u64 = isqrt((2 * FP_ONE * FP_ONE) as u64);
    proof {
        assert(sq2 >= 1) by (nonlinear_arith)
            requires
                (sq2 as int + 1) * (sq2 as int + 1) > 2 * (FP_ONE as int) * (FP_ONE as int);
        assert(sq2 <= 2000000) by (nonlinear_arith)
            requires sq2 as int * sq2 as int <= 2 * (FP_ONE as int) * (FP_ONE as int);
        assert(dist <= sq2) by (nonlinear_arith)
            requires
                dist as int * dist as int <= s2 as int
                    && s2 as int <= 2 * (FP_ONE as int) * (FP_ONE as int)
                    && 2 * (FP_ONE as int) * (FP_ONE as int)
                        < (sq2 as int + 1) * (sq2 as int + 1),
        ;
        assert(0 <= dist as int * FP_ONE <= FP_ONE as int * sq2 as int) by (nonlinear_arith)
            requires 0 <= dist as int <= sq2 as int;
        lemma_tdivs_bound(dist as int * FP_ONE, sq2 as int, FP_ONE as int);
    }
    div_trunc((dist as i64) * FP_ONE, sq2 as i64)
}

// ---------------------------------------------------------------------------
// The gradient kernel.
// ---------------------------------------------------------------------------

/// A blend strategy for the gradient kernel: a pure function of the four
/// wrapped lattice neighbors and the fractional offsets.
pub trait GradientBlend {
    /// What the strategy computes.
    spec fn blend_spec(&self, tl: Vec2, bl: Vec2, tr: Vec2, br: Vec2, dx: int, dy: int) -> Vec4;

    /// Compute one output sample from the four neighbors and the offsets.
    fn blend(&self, tl: Vec2, bl: Vec2, tr: Vec2, br: Vec2, dx: i64, dy: i64) -> (v: Vec4)
        requires
            vec2_in_unit(tl),
            vec2_in_unit(bl),
            vec2_in_unit(tr),
            vec2_in_unit(br),
            0 <= dx < FP_ONE,
            0 <= dy < FP_ONE,
        ensures
            v == self.blend_spec(tl, bl, tr, br, dx as int, dy as int);
}

/// The 2D gradient-lattice noise kernel.
pub struct NoiseKernel {
    pub out_width: usize,
    pub out_height: usize,
    pub scale_x: usize,
    pub scale_y: usize,
    pub seed: u64,
}

impl Default for NoiseKernel {
    /// A square kernel of 1024 by 1024 output samples over a 64 by 64
    /// lattice.
    fn default() -> (k: Self)
        ensures
            k.out_width == 1024,
            k.out_height == 1024,
            k.scale_x == 64,
            k.scale_y == 64,
            k.seed == 47,
    {
        NoiseKernel { out_width: 1024, out_height: 1024, scale_x: 64, scale_y: 64, seed: 47 }
    }
}

impl NoiseKernel {
    /// The dimensions a kernel invocation needs: nothing zero, axes within
    /// the mapper's range, and both fields small enough to allocate.
    pub open spec fn params_ok(self) -> bool {
        &&& 1 <= self.scale_x <= 0xFFFF_FFFFusize
        &&& 1 <= self.scale_y <= 0xFFFF_FFFFusize
        &&& 1 <= self.out_width <= 0xFFFF_FFFFusize
        &&& 1 <= self.out_height <= 0xFFFF_FFFFusize
        &&& 16 * (self.scale_x * self.scale_y) <= usize::MAX
        &&& self.out_width * self.out_height <= usize::MAX
    }

    /// The lattice cell at lattice coordinate `(i, j)`.
    pub open spec fn lattice_cell(self, i: int, j: int) -> Vec2 {
        Vec2 {
            x: cell_vec_x(self.seed, j * self.scale_x + i) as i64,
            y: cell_vec_y(self.seed, j * self.scale_x + i) as i64,
        }
    }

    /// The sample the kernel produces at output coordinate `(x, y)` with a
    /// blend strategy: a pure function of the kernel parameters and the
    /// strategy, which is what makes the kernel deterministic.
    pub open spec fn sample_spec<F: GradientBlend>(self, f: F, x: int, y: int) -> Vec4 {
        let fx = (x * self.scale_x) / (self.out_width as int);
        let fy = (y * self.scale_y) / (self.out_height as int);
        let wx = wrap_next(fx, self.scale_x as int);
        let wy = wrap_next(fy, self.scale_y as int);
        let dx = tdivs(((x * self.scale_x) % (self.out_width as int)) * FP_ONE,
            self.out_width as int);
        let dy = tdivs(((y * self.scale_y) % (self.out_height as int)) * FP_ONE,
            self.out_height as int);
        f.blend_spec(
            self.lattice_cell(fx, fy),
            self.lattice_cell(fx, wy),
            self.lattice_cell(wx, fy),
            self.lattice_cell(wx, wy),
            dx,
            dy,
        )
    }

    /// Build the seeded lattice, then blend the four wrapped neighbors of
    /// every output coordinate with the given strategy.
    #[verifier::rlimit(60)]
    pub fn make_noise<F: GradientBlend>(&self, f: &F) -> (n: Grid<Vec4>)
        requires
            self.params_ok(),
        ensures
            n.wf(),
            n.width == self.out_width,
            n.height == self.out_height,
            forall|x: int, y: int|
                0 <= x < self.out_width && 0 <= y < self.out_height ==> #[trigger] n.at(x, y)
                    == self.sample_spec(*f, x, y),
    {
        let count = self.scale_x * self.scale_y;
        let lattice = Grid::<Vec2> {
            cells: vector_lattice(self.seed, count),
            width: self.scale_x,
            height: self.scale_y,
        };
        let mut cells: Vec<Vec4> = Vec::new();
        let mut y: usize = 0;
        while y < self.out_height
            invariant
                y <= self.out_height,
                self.params_ok(),
                lattice.wf(),
                lattice.width == self.scale_x,
                lattice.height == self.scale_y,
                forall|k: int| 0 <= k < self.scale_x * self.scale_y ==> (#[trigger] lattice.cells@[
                    k]).x == cell_vec_x(self.seed, k) && lattice.cells@[k].y == cell_vec_y(
                    self.seed, k),
                forall|k: int| 0 <= k < self.scale_x * self.scale_y ==> vec2_in_unit(
                    #[trigger] lattice.cells@[k]),
                cells@.len() == y * self.out_width,
                forall|i: int, j: int|
                    0 <= i < self.out_width && 0 <= j < y ==> #[trigger] cells@[j * self.out_width
                        + i] == self.sample_spec(*f, i, j),
            decreases self.out_height - y,
        {
            let mut x: usize = 0;
            while x < self.out_width
                invariant
                    x <= self.out_width,
                    y < self.out_height,
                    self.params_ok(),
                    lattice.wf(),
                    lattice.width == self.scale_x,
                    lattice.height == self.scale_y,
                    forall|k: int| 0 <= k < self.scale_x * self.scale_y ==> (
                        #[trigger] lattice.cells@[k]).x == cell_vec_x(self.seed, k)
                        && lattice.cells@[k].y == cell_vec_y(self.seed, k),
                    forall|k: int| 0 <= k < self.scale_x * self.scale_y ==> vec2_in_unit(
                        #[trigger] lattice.cells@[k]),
                    cells@.len() == y * self.out_width + x,
                    forall|i: int, j: int|
                        0 <= i < self.out_width && 0 <= j < y ==> #[trigger] cells@[j
                            * self.out_width + i] == self.sample_spec(*f, i, j),
                    forall|i: int|
                        0 <= i < x ==> #[trigger] cells@[y * self.out_width + i]
                            == self.sample_spec(*f, i, y as int),
                decreases self.out_width - x,
            {
                proof {
                    assert(y * self.out_width + x < self.out_width * self.out_height)
                        by (nonlinear_arith)
                        requires x < self.out_width && y < self.out_height;
                }
                let mx = map_axis(x as u64, self.scale_x as u64, self.out_width as u64);
                let my = map_axis(y as u64, self.scale_y as u64, self.out_height as u64);
                let dx = frac_to_fp(mx.num, mx.den);
                let dy = frac_to_fp(my.num, my.den);
                let fx = mx.floor_idx as usize;
                let fy = my.floor_idx as usize;
                let wx = mx.wrapped_idx as usize;
                let wy = my.wrapped_idx as usize;
                proof {
                    assert(0 <= fy * self.scale_x + fx < self.scale_x * self.scale_y
                        && 0 <= wy * self.scale_x + fx < self.scale_x * self.scale_y
                        && 0 <= fy * self.scale_x + wx < self.scale_x * self.scale_y
                        && 0 <= wy * self.scale_x + wx < self.scale_x * self.scale_y)
                        by (nonlinear_arith)
                        requires
                            fx < self.scale_x && wx < self.scale_x && fy < self.scale_y
                                && wy < self.scale_y && self.scale_x >= 1 && self.scale_y >= 1;
                }
                let tl = *lattice.get(fx, fy);
                let bl = *lattice.get(fx, wy);
                let tr = *lattice.get(wx, fy);
                let br = *lattice.get(wx, wy);
                let v = f.blend(tl, bl, tr, br, dx, dy);
                proof {
                    assert(tl == self.lattice_cell(fx as int, fy as int));
                    assert(bl == self.lattice_cell(fx as int, wy as int));
                    assert(tr == self.lattice_cell(wx as int, fy as int));
                    assert(br == self.lattice_cell(wx as int, wy as int));
                }
                cells.push(v);
                proof {
                    assert forall|i: int, j: int|
                        0 <= i < self.out_width && 0 <= j < y implies #[trigger] cells@[j
                        * self.out_width + i] == self.sample_spec(*f, i, j) by {
                        lemma_row_index(i, j, self.out_width as int, y as int);
                    }
                }
                x += 1;
            }
            y += 1;
            proof {
                assert(y * self.out_width == (y - 1) * self.out_width + self.out_width)
                    by (nonlinear_arith);
                assert forall|i: int, j: int|
                    0 <= i < self.out_width && 0 <= j < y implies #[trigger] cells@[j
                    * self.out_width + i] == self.sample_spec(*f, i, j) by {
                    if j == y - 1 {
                        assert(cells@[(y - 1) * self.out_width + i] == self.sample_spec(
                            *f, i, (y - 1) as int));
                    }
                }
            }
        }
        proof {
            assert(cells@.len() == self.out_width * self.out_height) by (nonlinear_arith)
                requires cells@.len() == self.out_height * self.out_width;
        }
        Grid::<Vec4> { cells, width: self.out_width, height: self.out_height }
    }
}

/// A row-major index stays within the field.
pub proof fn lemma_row_index(i: int, j: int, w: int, rows: int)
    requires
        0 <= i < w,
        0 <= j < rows,
    ensures
        0 <= j * w + i,
        j * w + i < rows * w,
{
    assert(0 <= j * w + i && j * w + i < rows * w) by (nonlinear_arith)
        requires 0 <= i < w && 0 <= j < rows;
}

impl NoiseKernel {
    /// Invoke the kernel after checking the configuration: zero-sized
    /// dimensions and dimensions past the addressable range are refused with
    /// an error, never clamped.
    pub fn try_make_noise<F: GradientBlend>(&self, f: &F) -> (r: Result<Grid<Vec4>,
        ConfigError>)
        ensures
            (self.scale_x == 0 || self.scale_y == 0 || self.out_width == 0
                || self.out_height == 0) ==> r == Err::<Grid<Vec4>, ConfigError>(
                ConfigError::ZeroDimension),
            (self.scale_x >= 1 && self.scale_y >= 1 && self.out_width >= 1
                && self.out_height >= 1 && !self.params_ok()) ==> r == Err::<
                Grid<Vec4>, ConfigError>(ConfigError::TooLarge),
            self.params_ok() ==> (r matches Ok(n) && n.wf() && n.width == self.out_width
                && n.height == self.out_height && forall|x: int, y: int|
                0 <= x < self.out_width && 0 <= y < self.out_height ==> #[trigger] n.at(x, y)
                    == self.sample_spec(*f, x, y)),
    {
        if self.scale_x == 0 || self.scale_y == 0 || self.out_width == 0 || self.out_height
            == 0 {
            Err(ConfigError::ZeroDimension)
        } else if self.scale_x > 0xFFFF_FFFFusize || self.scale_y > 0xFFFF_FFFFusize
            || self.out_width > 0xFFFF_FFFFusize || self.out_height > 0xFFFF_FFFFusize {
            Err(ConfigError::TooLarge)
        } else {
            let cell_count = match self.scale_x.checked_mul(self.scale_y) {
                Some(p) => p,
                None => {
                    return Err(ConfigError::TooLarge);
                },
            };
            if cell_count > usize::MAX / 16 {
                return Err(ConfigError::TooLarge);
            }
            match self.out_width.checked_mul(self.out_height) {
                Some(_) => Ok(self.make_noise(f)),
                None => Err(ConfigError::TooLarge),
            }
        }
    }
}

/// Determinism of the gradient kernel: equal parameters and one strategy
/// give equal samples everywhere.
pub proof fn lemma_kernel_deterministic<F: GradientBlend>(
    a: NoiseKernel, b: NoiseKernel, f: F, x: int, y: int,
)
    requires
        a.out_width == b.out_width,
        a.out_height == b.out_height,
        a.scale_x == b.scale_x,
        a.scale_y == b.scale_y,
        a.seed == b.seed,
    ensures
        a.sample_spec(f, x, y) == b.sample_spec(f, x, y),
{
}

// ---------------------------------------------------------------------------
// The color kernel.
// ---------------------------------------------------------------------------

/// A blend strategy for the color kernel: a pure function of the four
/// wrapped lattice neighbors and their four corner weights.
pub trait ColorBlend {
    /// What the strategy computes.
    spec fn blend_spec(
        &self, tl: Rgba, bl: Rgba, tr: Rgba, br: Rgba, d_tl: int, d_bl: int, d_tr: int,
        d_br: int,
    ) -> Rgba;

    /// Compute one output sample from the four neighbors and their weights.
    fn blend(
        &self, tl: Rgba, bl: Rgba, tr: Rgba, br: Rgba, d_tl: i64, d_bl: i64, d_tr: i64,
        d_br: i64,
    ) -> (c: Rgba)
        requires
            0 <= d_tl <= FP_ONE,
            0 <= d_bl <= FP_ONE,
            0 <= d_tr <= FP_ONE,
            0 <= d_br <= FP_ONE,
        ensures
            c == self.blend_spec(tl, bl, tr, br, d_tl as int, d_bl as int, d_tr as int,
                d_br as int);
}

/// The color sample at output coordinate `(x, y)`: the four wrapped
/// neighbors of the seeded color lattice, blended under the chosen weight
/// convention (corner distance raw, or one minus it).
pub open spec fn color_sample_spec<F: ColorBlend>(
    f: F, seed: u64, sx: int, sy: int, w: int, h: int, invert: bool, alpha: u8, x: int,
    y: int,
) -> Rgba {
    let fx = (x * sx) / w;
    let fy = (y * sy) / h;
    let wx = wrap_next(fx, sx);
    let wy = wrap_next(fy, sy);
    let dx = tdivs(((x * sx) % w) * FP_ONE, w);
    let dy = tdivs(((y * sy) % h) * FP_ONE, h);
    f.blend_spec(
        cell_color(seed, fy * sx + fx, alpha),
        cell_color(seed, wy * sx + fx, alpha),
        cell_color(seed, fy * sx + wx, alpha),
        cell_color(seed, wy * sx + wx, alpha),
        corner_weight(dx, dy, invert),
        corner_weight(dx, FP_ONE - dy, invert),
        corner_weight(FP_ONE - dx, dy, invert),
        corner_weight(FP_ONE - dx, FP_ONE - dy, invert),
    )
}

/// Compute one corner weight.
fn weight_fp(dx: i64, dy: i64, invert: bool) -> (w: i64)
    requires
        0 <= dx <= FP_ONE,
        0 <= dy <= FP_ONE,
    ensures
        w == corner_weight(dx as int, dy as int, invert),
        0 <= w <= FP_ONE,
{
    let d = corner_dist_fp(dx, dy);
    if invert {
        FP_ONE - d
    } else {
        d
    }
}

/// The shared loop of the color kernels: build the seeded color lattice,
/// then blend the four wrapped neighbors of every output coordinate under
/// the chosen weight convention.
#[verifier::rlimit(80)]
pub(crate) fn color_field<F: ColorBlend>(
    f: &F, seed: u64, scale_x: u32, scale_y: u32, out_width: u32, out_height: u32,
    invert: bool, alpha: u8,
) -> (n: Grid<Rgba>)
    requires
        1 <= scale_x,
        1 <= scale_y,
        1 <= out_width,
        1 <= out_height,
        3 * (scale_x * scale_y) <= usize::MAX,
        out_width * out_height <= usize::MAX,
    ensures
        n.wf(),
        n.width == out_width,
        n.height == out_height,
        forall|x: int, y: int|
            0 <= x < out_width && 0 <= y < out_height ==> #[trigger] n.at(x, y)
                == color_sample_spec(*f, seed, scale_x as int, scale_y as int,
                out_width as int, out_height as int, invert, alpha, x, y),
{
    let sx = scale_x as usize;
    let sy = scale_y as usize;
    let w = out_width as usize;
    let h = out_height as usize;
    proof {
        assert(scale_x as int * scale_y as int == sx * sy) by (nonlinear_arith)
            requires sx == scale_x && sy == scale_y;
        assert(out_width as int * out_height as int == w * h) by (nonlinear_arith)
            requires w == out_width && h == out_height;
    }
    let count = sx * sy;
    let lattice = Grid::<Rgba> {
        cells: color_lattice(seed, count, alpha),
        width: sx,
        height: sy,
    };
    let mut cells: Vec<Rgba> = Vec::new();
    let mut y: usize = 0;
    while y < h
        invariant
            y <= h,
            1 <= sx <= 0xFFFF_FFFFusize,
            1 <= sy <= 0xFFFF_FFFFusize,
            1 <= w <= 0xFFFF_FFFFusize,
            1 <= h <= 0xFFFF_FFFFusize,
            sx == scale_x,
            sy == scale_y,
            w == out_width,
            h == out_height,
            w * h <= usize::MAX,
            lattice.wf(),
            lattice.width == sx,
            lattice.height == sy,
            forall|k: int| 0 <= k < sx * sy ==> lattice.cells@[k] == cell_color(seed, k,
                alpha),
            cells@.len() == y * w,
            forall|i: int, j: int|
                0 <= i < w && 0 <= j < y ==> #[trigger] cells@[j * w + i]
                    == color_sample_spec(*f, seed, sx as int, sy as int, w as int, h as int,
                    invert, alpha, i, j),
        decreases h - y,
    {
        let mut x: usize = 0;
        while x < w
            invariant
                x <= w,
                y < h,
                1 <= sx <= 0xFFFF_FFFFusize,
                1 <= sy <= 0xFFFF_FFFFusize,
                1 <= w <= 0xFFFF_FFFFusize,
                1 <= h <= 0xFFFF_FFFFusize,
                sx == scale_x,
                sy == scale_y,
                w == out_width,
                h == out_height,
                w * h <= usize::MAX,
                lattice.wf(),
                lattice.width == sx,
                lattice.height == sy,
                forall|k: int| 0 <= k < sx * sy ==> lattice.cells@[k] == cell_color(seed, k,
                    alpha),
                cells@.len() == y * w + x,
                forall|i: int, j: int|
                    0 <= i < w && 0 <= j < y ==> #[trigger] cells@[j * w + i]
                        == color_sample_spec(*f, seed, sx as int, sy as int, w as int,
                        h as int, invert, alpha, i, j),
                forall|i: int|
                    0 <= i < x ==> #[trigger] cells@[y * w + i] == color_sample_spec(*f, seed,
                        sx as int, sy as int, w as int, h as int, invert, alpha, i, y as int),
            decreases w - x,
        {
            proof {
                lemma_row_index(x as int, y as int, w as int, h as int);
            }
            let mx = map_axis(x as u64, sx as u64, w as u64);
            let my = map_axis(y as u64, sy as u64, h as u64);
            let dx = frac_to_fp(mx.num, mx.den);
            let dy = frac_to_fp(my.num, my.den);
            let fx = mx.floor_idx as usize;
            let fy = my.floor_idx as usize;
            let wxi = mx.wrapped_idx as usize;
            let wyi = my.wrapped_idx as usize;
            proof {
                assert(0 <= fy * sx + fx < sx * sy && 0 <= wyi * sx + fx < sx * sy && 0 <= fy
                    * sx + wxi < sx * sy && 0 <= wyi * sx + wxi < sx * sy)
                    by (nonlinear_arith)
                    requires
                        fx < sx && wxi < sx && fy < sy && wyi < sy && sx >= 1 && sy >= 1;
            }
            let tl = *lattice.get(fx, fy);
            let bl = *lattice.get(fx, wyi);
            let tr = *lattice.get(wxi, fy);
            let br = *lattice.get(wxi, wyi);
            let d_tl = weight_fp(dx, dy, invert);
            let d_bl = weight_fp(dx, FP_ONE - dy, invert);
            let d_tr = weight_fp(FP_ONE - dx, dy, invert);
            let d_br = weight_fp(FP_ONE - dx, FP_ONE - dy, invert);
            let c = f.blend(tl, bl, tr, br, d_tl, d_bl, d_tr, d_br);
            cells.push(c);
            proof {
                assert forall|i: int, j: int|
                    0 <= i < w && 0 <= j < y implies #[trigger] cells@[j * w + i]
                    == color_sample_spec(*f, seed, sx as int, sy as int, w as int, h as int,
                    invert, alpha, i, j) by {
                    lemma_row_index(i, j, w as int, y as int);
                }
            }
            x += 1;
        }
        y += 1;
        proof {
            assert(y * w == (y - 1) * w + w) by (nonlinear_arith);
            assert forall|i: int, j: int|
                0 <= i < w && 0 <= j < y implies #[trigger] cells@[j * w + i]
                == color_sample_spec(*f, seed, sx as int, sy as int, w as int, h as int,
                invert, alpha, i, j) by {
                if j == y - 1 {
                    assert(cells@[(y - 1) * w + i] == color_sample_spec(*f, seed, sx as int,
                        sy as int, w as int, h as int, invert, alpha, i, (y - 1) as int));
                }
            }
        }
    }
    proof {
        assert(cells@.len() == w * h) by (nonlinear_arith)
            requires cells@.len() == h * w;
    }
    Grid::<Rgba> { cells, width: w, height: h }
}

/// The 2D color-lattice noise kernel: inverse-distance corner weights over
/// an opaque seeded color lattice.
pub struct NoiseKernelV1 {
    pub out_width: u32,
    pub out_height: u32,
    pub scale_x: u32,
    pub scale_y: u32,
    pub seed: u64,
}

impl Default for NoiseKernelV1 {
    /// A square kernel of 1024 by 1024 output samples over a 64 by 64
    /// lattice.
    fn default() -> (k: Self)
        ensures
            k.out_width == 1024,
            k.out_height == 1024,
            k.scale_x == 64,
            k.scale_y == 64,
            k.seed == 47,
    {
        NoiseKernelV1 { out_width: 1024, out_height: 1024, scale_x: 64, scale_y: 64, seed: 47 }
    }
}

impl NoiseKernelV1 {
    /// The dimensions a kernel invocation needs: nothing zero, and both
    /// fields small enough to allocate.
    pub open spec fn params_ok(self) -> bool {
        &&& 1 <= self.scale_x
        &&& 1 <= self.scale_y
        &&& 1 <= self.out_width
        &&& 1 <= self.out_height
        &&& 3 * (self.scale_x * self.scale_y) <= usize::MAX
        &&& self.out_width * self.out_height <= usize::MAX
    }

    /// The sample the kernel produces at output coordinate `(x, y)` with a
    /// blend strategy: inverted corner-distance weights over an opaque
    /// lattice.
    pub open spec fn sample_spec<F: ColorBlend>(self, f: F, x: int, y: int) -> Rgba {
        color_sample_spec(f, self.seed, self.scale_x as int, self.scale_y as int,
            self.out_width as int, self.out_height as int, true, 255, x, y)
    }

    /// Build the seeded color lattice, then blend the four wrapped neighbors
    /// of every output coordinate with the given strategy, weighted by one
    /// minus the scaled corner distance.
    pub fn make_noise<F: ColorBlend>(&self, f: &F) -> (n: Grid<Rgba>)
        requires
            self.params_ok(),
        ensures
            n.wf(),
            n.width == self.out_width,
            n.height == self.out_height,
            forall|x: int, y: int|
                0 <= x < self.out_width && 0 <= y < self.out_height ==> #[trigger] n.at(x, y)
                    == self.sample_spec(*f, x, y),
    {
        color_field(f, self.seed, self.scale_x, self.scale_y, self.out_width,
            self.out_height, true, 255)
    }
}

impl NoiseKernelV1 {
    /// Invoke the kernel after checking the configuration: zero-sized
    /// dimensions and fields too large to allocate are refused with an
    /// error, never clamped.
    pub fn try_make_noise<F: ColorBlend>(&self, f: &F) -> (r: Result<Grid<Rgba>,
        ConfigError>)
        ensures
            (self.scale_x == 0 || self.scale_y == 0 || self.out_width == 0
                || self.out_height == 0) ==> r == Err::<Grid<Rgba>, ConfigError>(
                ConfigError::ZeroDimension),
            (self.scale_x >= 1 && self.scale_y >= 1 && self.out_width >= 1
                && self.out_height >= 1 && !self.params_ok()) ==> r == Err::<
                Grid<Rgba>, ConfigError>(ConfigError::TooLarge),
            self.params_ok() ==> (r matches Ok(n) && n.wf() && n.width == self.out_width
                && n.height == self.out_height && forall|x: int, y: int|
                0 <= x < self.out_width && 0 <= y < self.out_height ==> #[trigger] n.at(x, y)
                    == self.sample_spec(*f, x, y)),
    {
        if self.scale_x == 0 || self.scale_y == 0 || self.out_width == 0 || self.out_height
            == 0 {
            return Err(ConfigError::ZeroDimension);
        }
        let cell_count = match (self.scale_x as usize).checked_mul(self.scale_y as usize) {
            Some(p) => p,
            None => {
                return Err(ConfigError::TooLarge);
            },
        };
        if cell_count > usize::MAX / 3 {
            return Err(ConfigError::TooLarge);
        }
        match (self.out_width as usize).checked_mul(self.out_height as usize) {
            Some(_) => Ok(self.make_noise(f)),
            None => Err(ConfigError::TooLarge),
        }
    }
}

/// Determinism of the color kernel: equal parameters and one strategy give
/// equal samples everywhere.
pub proof fn lemma_kernel_v1_deterministic<F: ColorBlend>(
    a: NoiseKernelV1, b: NoiseKernelV1, f: F, x: int, y: int,
)
    requires
        a.out_width == b.out_width,
        a.out_height == b.out_height,
        a.scale_x == b.scale_x,
        a.scale_y == b.scale_y,
        a.seed == b.seed,
    ensures
        a.sample_spec(f, x, y) == b.sample_spec(f, x, y),
{
}

} // verus!

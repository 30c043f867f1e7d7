//! The texture recipes: named blend strategies and the fields built from
//! them.

use vstd::prelude::*;

use crate::fixed::FP_ONE;
use crate::fixed::div_trunc;
use crate::fixed::lemma_tdivs_bound;
use crate::fixed::tdivs;
use crate::kernel::ColorBlend;
use crate::kernel::GradientBlend;
use crate::kernel::Grid;
use crate::kernel::NoiseKernel;
use crate::kernel::NoiseKernelV1;
use crate::kernel::Rgba;
use crate::kernel::Vec2;
use crate::kernel::Vec4;
use crate::kernel::color_field;
use crate::kernel::color_sample_spec;
use crate::kernel::lemma_row_index;
use crate::kernel::vec2_in_unit;

verus! {

// ---------------------------------------------------------------------------
// Blend strategies.
// ---------------------------------------------------------------------------

/// The dot product of a lattice vector with the offset vector.
pub open spec fn dot_spec(v: Vec2, dx: int, dy: int) -> int {
    tdivs(v.x * dx + v.y * dy, FP_ONE as int)
}

fn dot_fp(v: Vec2, dx: i64, dy: i64) -> (r: i64)
    requires
        vec2_in_unit(v),
        0 <= dx < FP_ONE,
        0 <= dy < FP_ONE,
    ensures
        r == dot_spec(v, dx as int, dy as int),
        -2 * (FP_ONE as int) <= r <= 2 * (FP_ONE as int),
{
    proof {
        assert(-(FP_ONE as int) * FP_ONE <= v.x as int * dx as int <= (FP_ONE as int)
            * FP_ONE) by (nonlinear_arith)
            requires -FP_ONE <= v.x <= FP_ONE && 0 <= dx <= FP_ONE;
        assert(-(FP_ONE as int) * FP_ONE <= v.y as int * dy as int <= (FP_ONE as int)
            * FP_ONE) by (nonlinear_arith)
            requires -FP_ONE <= v.y <= FP_ONE && 0 <= dy <= FP_ONE;
    }
    let s: i64 = v.x * dx + v.y * dy;
    proof {
        lemma_tdivs_bound(s as int, FP_ONE as int, 2 * (FP_ONE as int));
    }
    div_trunc(s, FP_ONE)
}

/// The gradient strategy: each output channel is the dot product of one
/// neighbor with the offset vector.
pub struct DotBlend;

impl GradientBlend for DotBlend {
    open spec fn blend_spec(
        &self, tl: Vec2, bl: Vec2, tr: Vec2, br: Vec2, dx: int, dy: int,
    ) -> Vec4 {
        Vec4 {
            x: dot_spec(tl, dx, dy) as i64,
            y: dot_spec(bl, dx, dy) as i64,
            z: dot_spec(tr, dx, dy) as i64,
            w: dot_spec(br, dx, dy) as i64,
        }
    }

    fn blend(&self, tl: Vec2, bl: Vec2, tr: Vec2, br: Vec2, dx: i64, dy: i64) -> (v: Vec4) {
        Vec4 {
            x: dot_fp(tl, dx, dy),
            y: dot_fp(bl, dx, dy),
            z: dot_fp(tr, dx, dy),
            w: dot_fp(br, dx, dy),
        }
    }
}

/// One channel of the weighted average of the four neighbors.
pub open spec fn avg_channel(
    c1: u8, c2: u8, c3: u8, c4: u8, d1: int, d2: int, d3: int, d4: int,
) -> int {
    tdivs(c1 * d1 + c2 * d2 + c3 * d3 + c4 * d4, 4 * FP_ONE as int)
}

fn avg_fp(c1: u8, c2: u8, c3: u8, c4: u8, d1: i64, d2: i64, d3: i64, d4: i64) -> (r: u8)
    requires
        0 <= d1 <= FP_ONE,
        0 <= d2 <= FP_ONE,
        0 <= d3 <= FP_ONE,
        0 <= d4 <= FP_ONE,
    ensures
        r == avg_channel(c1, c2, c3, c4, d1 as int, d2 as int, d3 as int, d4 as int),
{
    proof {
        assert(0 <= c1 as int * d1 as int <= 255 * (FP_ONE as int)) by (nonlinear_arith)
            requires 0 <= c1 <= 255 && 0 <= d1 <= FP_ONE;
        assert(0 <= c2 as int * d2 as int <= 255 * (FP_ONE as int)) by (nonlinear_arith)
            requires 0 <= c2 <= 255 && 0 <= d2 <= FP_ONE;
        assert(0 <= c3 as int * d3 as int <= 255 * (FP_ONE as int)) by (nonlinear_arith)
            requires 0 <= c3 <= 255 && 0 <= d3 <= FP_ONE;
        assert(0 <= c4 as int * d4 as int <= 255 * (FP_ONE as int)) by (nonlinear_arith)
            requires 0 <= c4 <= 255 && 0 <= d4 <= FP_ONE;
    }
    let s: i64 = (c1 as i64) * d1 + (c2 as i64) * d2 + (c3 as i64) * d3 + (c4 as i64) * d4;
    proof {
        lemma_tdivs_bound(s as int, 4 * (FP_ONE as int), 255);
    }
    div_trunc(s, 4 * FP_ONE) as u8
}

/// The averaging strategy: every color channel is the weighted average of
/// the four neighbors, and the output is opaque.
pub struct AvgBlend;

impl ColorBlend for AvgBlend {
    open spec fn blend_spec(
        &self, tl: Rgba, bl: Rgba, tr: Rgba, br: Rgba, d_tl: int, d_bl: int, d_tr: int,
        d_br: int,
    ) -> Rgba {
        Rgba {
            r: avg_channel(tl.r, bl.r, tr.r, br.r, d_tl, d_bl, d_tr, d_br) as u8,
            g: avg_channel(tl.g, bl.g, tr.g, br.g, d_tl, d_bl, d_tr, d_br) as u8,
            b: avg_channel(tl.b, bl.b, tr.b, br.b, d_tl, d_bl, d_tr, d_br) as u8,
            a: 255,
        }
    }

    fn blend(
        &self, tl: Rgba, bl: Rgba, tr: Rgba, br: Rgba, d_tl: i64, d_bl: i64, d_tr: i64,
        d_br: i64,
    ) -> (c: Rgba) {
        Rgba {
            r: avg_fp(tl.r, bl.r, tr.r, br.r, d_tl, d_bl, d_tr, d_br),
            g: avg_fp(tl.g, bl.g, tr.g, br.g, d_tl, d_bl, d_tr, d_br),
            b: avg_fp(tl.b, bl.b, tr.b, br.b, d_tl, d_bl, d_tr, d_br),
            a: 255,
        }
    }
}

/// One channel scaled by one corner weight.
pub open spec fn scale_channel(c: u8, d: int) -> int {
    tdivs(c * d, FP_ONE as int)
}

fn scale_fp(c: u8, d: i64) -> (r: u8)
    requires
        0 <= d <= FP_ONE,
    ensures
        r == scale_channel(c, d as int),
{
    proof {
        assert(0 <= c as int * d as int <= 255 * (FP_ONE as int)) by (nonlinear_arith)
            requires 0 <= c <= 255 && 0 <= d <= FP_ONE;
        lemma_tdivs_bound(c as int * d as int, FP_ONE as int, 255);
    }
    div_trunc((c as i64) * d, FP_ONE) as u8
}

/// The corner strategy: red from the top-left neighbor, green and alpha from
/// the bottom-right, blue from the top-right, each scaled by its own corner
/// weight.
pub struct CornerBlend;

impl ColorBlend for CornerBlend {
    open spec fn blend_spec(
        &self, tl: Rgba, bl: Rgba, tr: Rgba, br: Rgba, d_tl: int, d_bl: int, d_tr: int,
        d_br: int,
    ) -> Rgba {
        Rgba {
            r: scale_channel(tl.r, d_tl) as u8,
            g: scale_channel(br.r, d_br) as u8,
            b: scale_channel(tr.r, d_tr) as u8,
            a: br.r,
        }
    }

    fn blend(
        &self, tl: Rgba, bl: Rgba, tr: Rgba, br: Rgba, d_tl: i64, d_bl: i64, d_tr: i64,
        d_br: i64,
    ) -> (c: Rgba) {
        Rgba {
            r: scale_fp(tl.r, d_tl),
            g: scale_fp(br.r, d_br),
            b: scale_fp(tr.r, d_tr),
            a: br.r,
        }
    }
}

// ---------------------------------------------------------------------------
// Sample narrowing.
// ---------------------------------------------------------------------------

/// Narrow one fixed-point channel to a byte: negative values clamp to zero,
/// one and above clamp to 255, the rest are scaled and truncated.
pub open spec fn to_byte(v: int) -> int {
    if v <= 0 {
        0
    } else if v >= FP_ONE {
        255
    } else {
        tdivs(v * 255, FP_ONE as int)
    }
}

fn to_byte_fp(v: i64) -> (r: u8)
    ensures
        r == to_byte(v as int),
{
    if v <= 0 {
        0
    } else if v >= FP_ONE {
        255
    } else {
        proof {
            assert(0 <= v as int * 255 <= 255 * (FP_ONE as int)) by (nonlinear_arith)
                requires 0 <= v <= FP_ONE;
            lemma_tdivs_bound(v as int * 255, FP_ONE as int, 255);
        }
        div_trunc(v * 255, FP_ONE) as u8
    }
}

/// Narrow a four-channel fixed-point sample to a byte color.
pub open spec fn rgba_of(v: Vec4) -> Rgba {
    Rgba {
        r: to_byte(v.x as int) as u8,
        g: to_byte(v.y as int) as u8,
        b: to_byte(v.z as int) as u8,
        a: to_byte(v.w as int) as u8,
    }
}

fn rgba_fp(v: Vec4) -> (c: Rgba)
    ensures
        c == rgba_of(v),
{
    Rgba { r: to_byte_fp(v.x), g: to_byte_fp(v.y), b: to_byte_fp(v.z), a: to_byte_fp(v.w) }
}

// ---------------------------------------------------------------------------
// The texture recipes.
// ---------------------------------------------------------------------------

/// The color of the averaged texture at one coordinate.
pub open spec fn make_noise_at(
    w: int, h: int, sx: int, sy: int, seed: u64, x: int, y: int,
) -> Rgba {
    color_sample_spec((AvgBlend {}), seed, sx, sy, w, h, false, 0, x, y)
}

/// The averaged texture: raw corner-distance weights over a transparent
/// seeded lattice.
pub fn make_noise(width: u32, height: u32, scale_x: u32, scale_y: u32, seed: u64) -> (n: Grid<
    Rgba>)
    requires
        1 <= scale_x,
        1 <= scale_y,
        1 <= width,
        1 <= height,
        3 * (scale_x * scale_y) <= usize::MAX,
        width * height <= usize::MAX,
    ensures
        n.wf(),
        n.width == width,
        n.height == height,
        forall|x: int, y: int|
            0 <= x < width && 0 <= y < height ==> #[trigger] n.at(x, y) == make_noise_at(
                width as int, height as int, scale_x as int, scale_y as int, seed, x, y),
{
    color_field(&AvgBlend, seed, scale_x, scale_y, width, height, false, 0)
}

/// The color of the inverted averaged texture at one coordinate.
pub open spec fn make_noise2_at(
    w: int, h: int, sx: int, sy: int, seed: u64, x: int, y: int,
) -> Rgba {
    color_sample_spec((AvgBlend {}), seed, sx, sy, w, h, true, 0, x, y)
}

/// The averaged texture under the other sign convention: weights are one
/// minus the scaled corner distance.
pub fn make_noise2(width: u32, height: u32, scale_x: u32, scale_y: u32, seed: u64) -> (n: Grid<
    Rgba>)
    requires
        1 <= scale_x,
        1 <= scale_y,
        1 <= width,
        1 <= height,
        3 * (scale_x * scale_y) <= usize::MAX,
        width * height <= usize::MAX,
    ensures
        n.wf(),
        n.width == width,
        n.height == height,
        forall|x: int, y: int|
            0 <= x < width && 0 <= y < height ==> #[trigger] n.at(x, y) == make_noise2_at(
                width as int, height as int, scale_x as int, scale_y as int, seed, x, y),
{
    color_field(&AvgBlend, seed, scale_x, scale_y, width, height, true, 0)
}

/// The color of the gradient demo texture at one coordinate.
pub open spec fn noise0_at(x: int, y: int) -> Rgba {
    let k = NoiseKernel {
        out_width: 1400,
        out_height: 1400,
        scale_x: 25,
        scale_y: 35,
        seed: 47,
    };
    rgba_of(k.sample_spec((DotBlend {}), x, y))
}

/// The gradient demo texture: dot products of the four neighbors, narrowed
/// to bytes.
pub fn noise0() -> (n: Grid<Rgba>)
    ensures
        n.wf(),
        n.width == 1400,
        n.height == 1400,
        forall|x: int, y: int|
            0 <= x < 1400 && 0 <= y < 1400 ==> #[trigger] n.at(x, y) == noise0_at(x, y),
{
    let k = NoiseKernel { out_width: 1400, out_height: 1400, scale_x: 25, scale_y: 35, seed: 47 };
    let field = k.make_noise(&DotBlend);
    let total = field.cells.len();
    let mut cells: Vec<Rgba> = Vec::new();
    let mut m: usize = 0;
    while m < total
        invariant
            m <= total,
            total == field.cells@.len(),
            cells@.len() == m,
            forall|i: int| 0 <= i < m ==> cells@[i] == rgba_of(#[trigger] field.cells@[i]),
        decreases total - m,
    {
        let c = rgba_fp(field.cells[m]);
        cells.push(c);
        m += 1;
    }
    let n = Grid::<Rgba> { cells, width: field.width, height: field.height };
    proof {
        assert forall|x: int, y: int|
            0 <= x < 1400 && 0 <= y < 1400 implies #[trigger] n.at(x, y) == noise0_at(x, y) by {
            lemma_row_index(x, y, 1400, 1400);
            assert(field.at(x, y) == k.sample_spec((DotBlend {}), x, y));
        }
    }
    n
}

/// The color of the splotch demo texture at one coordinate.
pub open spec fn noise1_at(x: int, y: int) -> Rgba {
    color_sample_spec((AvgBlend {}), 47, 64, 64, 1024, 1024, true, 255, x, y)
}

/// The splotch demo texture: the default color kernel under the averaging
/// strategy.
pub fn noise1() -> (n: Grid<Rgba>)
    ensures
        n.wf(),
        n.width == 1024,
        n.height == 1024,
        forall|x: int, y: int|
            0 <= x < 1024 && 0 <= y < 1024 ==> #[trigger] n.at(x, y) == noise1_at(x, y),
{
    let k = NoiseKernelV1::default();
    k.make_noise(&AvgBlend)
}

/// The color of the small-grid corner demo texture at one coordinate.
pub open spec fn noise2_at(x: int, y: int) -> Rgba {
    color_sample_spec((CornerBlend {}), 47, 26, 26, 1024, 1024, true, 255, x, y)
}

/// The corner demo texture over a 26 by 26 lattice.
pub fn noise2() -> (n: Grid<Rgba>)
    ensures
        n.wf(),
        n.width == 1024,
        n.height == 1024,
        forall|x: int, y: int|
            0 <= x < 1024 && 0 <= y < 1024 ==> #[trigger] n.at(x, y) == noise2_at(x, y),
{
    let k = NoiseKernelV1 {
        out_width: 1024,
        out_height: 1024,
        scale_x: 26,
        scale_y: 26,
        seed: 47,
    };
    k.make_noise(&CornerBlend)
}

/// The color of the large corner demo texture at one coordinate.
pub open spec fn noise3_at(x: int, y: int) -> Rgba {
    color_sample_spec((CornerBlend {}), 47, 100, 100, 1400, 1400, true, 255, x, y)
}

/// The corner demo texture over a 100 by 100 lattice at 1400 by 1400 output.
pub fn noise3() -> (n: Grid<Rgba>)
    ensures
        n.wf(),
        n.width == 1400,
        n.height == 1400,
        forall|x: int, y: int|
            0 <= x < 1400 && 0 <= y < 1400 ==> #[trigger] n.at(x, y) == noise3_at(x, y),
{
    let k = NoiseKernelV1 {
        out_width: 1400,
        out_height: 1400,
        scale_x: 100,
        scale_y: 100,
        seed: 47,
    };
    k.make_noise(&CornerBlend)
}

/// Compute every demo texture, in the order in which they are saved: the
/// four named recipes, five averaged fields, and two inverted ones.
#[verifier::rlimit(100)]
pub fn textures() -> (ts: Vec<Grid<Rgba>>)
    ensures
        ts@.len() == 11,
        forall|x: int, y: int|
            0 <= x < 1400 && 0 <= y < 1400 ==> #[trigger] ts@[0].at(x, y) == noise0_at(x, y),
        forall|x: int, y: int|
            0 <= x < 1024 && 0 <= y < 1024 ==> #[trigger] ts@[1].at(x, y) == noise1_at(x, y),
        forall|x: int, y: int|
            0 <= x < 1024 && 0 <= y < 1024 ==> #[trigger] ts@[2].at(x, y) == noise2_at(x, y),
        forall|x: int, y: int|
            0 <= x < 1400 && 0 <= y < 1400 ==> #[trigger] ts@[3].at(x, y) == noise3_at(x, y),
        forall|x: int, y: int|
            0 <= x < 640 && 0 <= y < 480 ==> #[trigger] ts@[4].at(x, y) == make_noise_at(
                640, 480, 13, 13, 47, x, y),
        forall|x: int, y: int|
            0 <= x < 640 && 0 <= y < 480 ==> #[trigger] ts@[5].at(x, y) == make_noise_at(
                640, 480, 130, 130, 47, x, y),
        forall|x: int, y: int|
            0 <= x < 1024 && 0 <= y < 1024 ==> #[trigger] ts@[6].at(x, y) == make_noise_at(
                1024, 1024, 42, 42, 47, x, y),
        forall|x: int, y: int|
            0 <= x < 1024 && 0 <= y < 1024 ==> #[trigger] ts@[7].at(x, y) == make_noise_at(
                1024, 1024, 30, 80, 47, x, y),
        forall|x: int, y: int|
            0 <= x < 1024 && 0 <= y < 1024 ==> #[trigger] ts@[8].at(x, y) == make_noise_at(
                1024, 1024, 60, 50, 47, x, y),
        forall|x: int, y: int|
            0 <= x < 1024 && 0 <= y < 1024 ==> #[trigger] ts@[9].at(x, y) == make_noise2_at(
                1024, 1024, 60, 50, 47, x, y),
        forall|x: int, y: int|
            0 <= x < 1024 && 0 <= y < 1024 ==> #[trigger] ts@[10].at(x, y) == make_noise2_at(
                1024, 1024, 6, 5, 47, x, y),
{
    let mut ts: Vec<Grid<Rgba>> = Vec::new();
    ts.push(noise0());
    ts.push(noise1());
    ts.push(noise2());
    ts.push(noise3());
    ts.push(make_noise(640, 480, 13, 13, 47));
    ts.push(make_noise(640, 480, 130, 130, 47));
    ts.push(make_noise(1024, 1024, 42, 42, 47));
    ts.push(make_noise(1024, 1024, 30, 80, 47));
    ts.push(make_noise(1024, 1024, 60, 50, 47));
    ts.push(make_noise2(1024, 1024, 60, 50, 47));
    ts.push(make_noise2(1024, 1024, 6, 5, 47));
    ts
}

} // verus!

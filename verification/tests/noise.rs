use noize::config::ConfigError;
use noize::ease::{ease, smooth_step, smoother_step, smoothest_step, Ease};
use noize::fixed::FP_ONE;
use noize::kernel::{NoiseKernel, NoiseKernelV1, Vec4};
use noize::mapper::map_axis;
use noize::noise1d::{Noise1V0, PNoise1};
use noize::texture::{make_noise, make_noise2, AvgBlend, DotBlend};

fn all_laws() -> Vec<Ease> {
    vec![
        Ease::SmoothStep,
        Ease::SmootherStep,
        Ease::SmoothestStep,
        Ease::Back,
        Ease::Bounce,
        Ease::Circ,
        Ease::Cubic,
        Ease::Elastic,
        Ease::Expo,
        Ease::Linear,
        Ease::Quad,
        Ease::Quart,
        Ease::Quint,
        Ease::Sine,
    ]
}

#[test]
fn ease_boundary_left() {
    let l: i64 = -123456;
    let r: i64 = 654321;
    for law in all_laws() {
        assert_eq!(ease(law, 0, l, r), l);
    }
}

#[test]
fn ease_boundary_right() {
    let l: i64 = -123456;
    let r: i64 = 654321;
    for law in all_laws() {
        assert_eq!(ease(law, FP_ONE, l, r), r);
    }
}

#[test]
fn ease_boundary_equal_ends() {
    for law in all_laws() {
        assert_eq!(ease(law, 0, FP_ONE, FP_ONE), FP_ONE);
        assert_eq!(ease(law, FP_ONE, -FP_ONE, -FP_ONE), -FP_ONE);
    }
}

#[test]
fn linear_quarter_exact() {
    // With the linear law, a quarter of the way moves a quarter of the span.
    assert_eq!(ease(Ease::Linear, FP_ONE / 4, 0, FP_ONE), FP_ONE / 4);
}

#[test]
fn smooth_step_midpoint_exact() {
    // The cubic Hermite shape is exactly one half at the midpoint.
    assert_eq!(smooth_step(0, FP_ONE, FP_ONE / 2), FP_ONE / 2);
    assert_eq!(smoother_step(0, FP_ONE, FP_ONE / 2), FP_ONE / 2);
    assert_eq!(smoothest_step(0, FP_ONE, FP_ONE / 2), FP_ONE / 2);
}

#[test]
fn toroidal_wrap_on_last_cell() {
    // floor == scale - 1 wraps to 0, never to scale.
    let m = map_axis(3, 4, 4);
    assert_eq!(m.floor_idx, 3);
    assert_eq!(m.wrapped_idx, 0);
    let m = map_axis(7, 2, 8);
    assert_eq!(m.floor_idx, 1);
    assert_eq!(m.wrapped_idx, 0);
}

#[test]
fn wrap_only_at_boundary() {
    let m = map_axis(0, 4, 8);
    assert_eq!(m.floor_idx, 0);
    assert_eq!(m.wrapped_idx, 1);
}

#[test]
fn fractional_offsets_cover_unit_cell() {
    // dx = num / den always lies in [0, 1).
    for out in 1u64..30 {
        for scale in 1u64..10 {
            for x in 0..out {
                let m = map_axis(x, scale, out);
                assert!(m.num < m.den);
                assert!(m.floor_idx < scale);
                assert!(m.wrapped_idx < scale);
            }
        }
    }
}

#[test]
fn pnoise1_determinism() {
    let a = PNoise1::new(47, 16, 256, Ease::SmoothStep);
    let b = PNoise1::new(47, 16, 256, Ease::SmoothStep);
    assert_eq!(a.grid, b.grid);
    assert_eq!(a.output, b.output);
}

#[test]
fn pnoise1_seed_changes_lattice() {
    let a = PNoise1::new(1, 8, 8, Ease::Linear);
    let b = PNoise1::new(2, 8, 8, Ease::Linear);
    assert_ne!(a.grid, b.grid);
}

#[test]
fn pnoise1_lattice_in_range() {
    let a = PNoise1::new(97, 64, 64, Ease::Linear);
    assert_eq!(a.grid.len(), 64);
    for v in &a.grid {
        assert!(-FP_ONE <= *v && *v <= FP_ONE);
    }
}

#[test]
fn pnoise1_cyclic_restart_three_cycles() {
    let mut p = PNoise1::new(47, 4, 8, Ease::SmoothStep);
    let first: Vec<i64> = p.output.clone();
    let mut produced: Vec<i64> = Vec::new();
    for _ in 0..24 {
        produced.push(p.next().unwrap());
    }
    for (i, v) in produced.iter().enumerate() {
        assert_eq!(*v, first[i % 8]);
    }
}

#[test]
fn pnoise1_consumption_is_idempotent() {
    let mut p = PNoise1::new(47, 4, 16, Ease::Bounce);
    let grid_before = p.grid.clone();
    let output_before = p.output.clone();
    for _ in 0..40 {
        p.next();
    }
    assert_eq!(p.grid, grid_before);
    assert_eq!(p.output, output_before);
}

#[test]
fn pnoise1_linear_scenario() {
    // seed 47, 4 lattice cells, 16 output samples, linear law: the first
    // sample is exactly the first cell, and the first segment moves
    // monotonically from grid[0] toward grid[1].
    let p = PNoise1::new(47, 4, 16, Ease::Linear);
    assert_eq!(p.output[0], p.grid[0]);
    let g0 = p.grid[0];
    let g1 = p.grid[1];
    let lo = g0.min(g1);
    let hi = g0.max(g1);
    for x in 1..4 {
        assert!(lo <= p.output[x] && p.output[x] <= hi);
        if g1 >= g0 {
            assert!(p.output[x] >= p.output[x - 1]);
        } else {
            assert!(p.output[x] <= p.output[x - 1]);
        }
    }
    // The sample at the middle of the first segment lies strictly between
    // the two neighbor cells.
    assert_ne!(g0, g1);
    assert!(lo < p.output[2] && p.output[2] < hi);
}

#[test]
fn noise1v0_first_sample_is_right_neighbor() {
    // At x = 0 the offset is 0, so the left part vanishes and the right
    // neighbor passes through with full weight.
    let n = Noise1V0::new(47, 4, 16);
    assert_eq!(n.output.len(), 16);
    assert_eq!(n.grid.len(), 4);
    assert_eq!(n.output[0], n.grid[1]);
}

#[test]
fn noise1v0_determinism() {
    let a = Noise1V0::new(5, 8, 32);
    let b = Noise1V0::new(5, 8, 32);
    assert_eq!(a.grid, b.grid);
    assert_eq!(a.output, b.output);
}

#[test]
fn four_distinct_cells_on_two_by_two_lattice() {
    // scale 2x2, output 4x4: exactly the four lattice cells are referenced
    // across all sixteen samples, no phantom fifth from a wrap bug.
    let mut seen = [[false; 2]; 2];
    for x in 0..4u64 {
        let mx = map_axis(x, 2, 4);
        for y in 0..4u64 {
            let my = map_axis(y, 2, 4);
            for ix in [mx.floor_idx, mx.wrapped_idx] {
                for iy in [my.floor_idx, my.wrapped_idx] {
                    assert!(ix < 2 && iy < 2);
                    seen[ix as usize][iy as usize] = true;
                }
            }
        }
    }
    assert!(seen[0][0] && seen[0][1] && seen[1][0] && seen[1][1]);
}

#[test]
fn gradient_kernel_origin_sample_is_zero() {
    // At (0, 0) both offsets are zero, so every dot product vanishes.
    let k = NoiseKernel { out_width: 4, out_height: 4, scale_x: 2, scale_y: 2, seed: 7 };
    let field = k.make_noise(&DotBlend);
    assert_eq!(field.width, 4);
    assert_eq!(field.height, 4);
    assert_eq!(field.cells.len(), 16);
    assert_eq!(field.cells[0], Vec4 { x: 0, y: 0, z: 0, w: 0 });
}

#[test]
fn gradient_kernel_determinism() {
    let k = NoiseKernel { out_width: 8, out_height: 8, scale_x: 4, scale_y: 4, seed: 1 };
    let a = k.make_noise(&DotBlend);
    let b = k.make_noise(&DotBlend);
    assert_eq!(a.cells, b.cells);
}

#[test]
fn color_kernel_small_field() {
    let k = NoiseKernelV1 { out_width: 4, out_height: 4, scale_x: 2, scale_y: 2, seed: 1 };
    let field = k.make_noise(&AvgBlend);
    assert_eq!(field.width, 4);
    assert_eq!(field.height, 4);
    assert_eq!(field.cells.len(), 16);
    for c in &field.cells {
        assert_eq!(c.a, 255);
    }
}

#[test]
fn color_kernel_determinism() {
    let k = NoiseKernelV1 { out_width: 4, out_height: 4, scale_x: 2, scale_y: 2, seed: 9 };
    let a = k.make_noise(&AvgBlend);
    let b = k.make_noise(&AvgBlend);
    assert_eq!(a.cells, b.cells);
}

#[test]
fn weight_conventions_differ() {
    // Raw distance and inverse distance are two policies, not one: the same
    // parameters give different fields.
    let a = make_noise(8, 8, 2, 2, 47);
    let b = make_noise2(8, 8, 2, 2, 47);
    assert_eq!(a.cells.len(), 64);
    assert_eq!(b.cells.len(), 64);
    assert_ne!(a.cells, b.cells);
    for c in &a.cells {
        assert_eq!(c.a, 255);
    }
}

#[test]
fn grid_is_row_major() {
    let a = make_noise(6, 5, 3, 3, 11);
    assert_eq!(a.width, 6);
    assert_eq!(a.height, 5);
    for y in 0..5usize {
        for x in 0..6usize {
            assert_eq!(*a.get(x, y), a.cells[y * 6 + x]);
        }
    }
}

#[test]
fn zero_dimensions_are_refused() {
    assert_eq!(
        PNoise1::try_new(47, 0, 16, Ease::Linear).err(),
        Some(ConfigError::ZeroDimension)
    );
    assert_eq!(
        PNoise1::try_new(47, 4, 0, Ease::Linear).err(),
        Some(ConfigError::ZeroDimension)
    );
    assert_eq!(Noise1V0::try_new(47, 0, 8).err(), Some(ConfigError::ZeroDimension));
    let k = NoiseKernel { out_width: 0, out_height: 4, scale_x: 2, scale_y: 2, seed: 1 };
    assert_eq!(k.try_make_noise(&DotBlend).err(), Some(ConfigError::ZeroDimension));
    let k = NoiseKernelV1 { out_width: 4, out_height: 4, scale_x: 0, scale_y: 2, seed: 1 };
    assert_eq!(k.try_make_noise(&AvgBlend).err(), Some(ConfigError::ZeroDimension));
}

#[test]
fn oversized_dimensions_are_refused() {
    assert_eq!(
        PNoise1::try_new(47, usize::MAX, 16, Ease::Linear).err(),
        Some(ConfigError::TooLarge)
    );
    let k = NoiseKernel {
        out_width: 4,
        out_height: 4,
        scale_x: usize::MAX,
        scale_y: 2,
        seed: 1,
    };
    assert_eq!(k.try_make_noise(&DotBlend).err(), Some(ConfigError::TooLarge));
}

#[test]
fn checked_construction_succeeds_in_range() {
    let a = PNoise1::try_new(47, 4, 16, Ease::Linear).unwrap();
    let b = PNoise1::new(47, 4, 16, Ease::Linear);
    assert_eq!(a.grid, b.grid);
    assert_eq!(a.output, b.output);
    let k = NoiseKernel { out_width: 4, out_height: 4, scale_x: 2, scale_y: 2, seed: 7 };
    let g = k.try_make_noise(&DotBlend).unwrap();
    assert_eq!(g.cells, k.make_noise(&DotBlend).cells);
}

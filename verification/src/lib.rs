//! Procedural value noise: deterministic pseudo-random lattices sampled at an
//! arbitrary output resolution through interpolation.
//!
//! All sample arithmetic is fixed-point: a value of `1.0` is represented by
//! the integer [`fixed::FP_ONE`]. Lattice cells, fractional offsets and
//! interpolated samples are all carried as scaled integers, which keeps every
//! computation exact and lets each kernel carry a full functional contract.

pub mod config;
pub mod ease;
pub mod fixed;
pub mod kernel;
pub mod mapper;
pub mod noise1d;
pub mod rng;
pub mod texture;

pub use config::ConfigError;
pub use ease::Ease;
pub use ease::smooth_step;
pub use ease::smoother_step;
pub use ease::smoothest_step;
pub use kernel::NoiseKernel;
pub use kernel::NoiseKernelV1;
pub use noise1d::Noise1V0;
pub use noise1d::PNoise1;
pub use texture::make_noise;
pub use texture::make_noise2;
pub use texture::noise0;
pub use texture::noise1;
pub use texture::noise2;
pub use texture::noise3;
pub use texture::textures;

//! Configuration errors.
//!
//! A kernel built with a zero-sized lattice or output, or with dimensions
//! past what the coordinate mapper can address, is refused at construction:
//! the error is surfaced, never clamped away.

use vstd::prelude::*;

verus! {

/// Why a kernel configuration was refused.
#[derive(Clone, Copy, Debug, PartialEq, Eq, Structural)]
pub enum ConfigError {
    /// A lattice or output dimension is zero.
    ZeroDimension,
    /// A dimension is beyond the addressable range.
    TooLarge,
}

} // verus!

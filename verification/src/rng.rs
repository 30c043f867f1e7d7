//! Seeded pseudo-random byte stream.
//!
//! Every lattice is generated from a ChaCha8 stream cipher seeded with a
//! 64-bit seed. The stream is a pure function of the seed, which is what
//! makes lattice generation, and with it every kernel, deterministic.

use rand::RngCore;
use rand::SeedableRng;
use rand_chacha::ChaCha8Rng;
use vstd::prelude::*;

verus! {

/// The `i`-th byte of the ChaCha8 stream for `seed`: the bytes that a
/// `ChaCha8Rng` seeded through `seed_from_u64` hands out, in order. ChaCha8
/// is a stream cipher run in counter mode, so the stream depends on the seed
/// alone and is identical in every process and on every machine.
pub uninterp spec fn chacha_byte(seed: u64, i: int) -> u8;

/// Relies on `rand_chacha::ChaCha8Rng`: `SeedableRng::seed_from_u64` expands
/// the seed into a cipher key deterministically, and `RngCore::fill_bytes`
/// writes the next `n` bytes of the cipher's output stream, a pure function
/// of the seed.
#[verifier::external_body]
pub(crate) fn chacha_stream(seed: u64, n: usize) -> (r: Vec<u8>)
    ensures
        r@.len() == n,
        forall|i: int| 0 <= i < n ==> r@[i] == chacha_byte(seed, i),
{
    let mut rng = ChaCha8Rng::seed_from_u64(seed);
    let mut buf = Vec::new();
    buf.resize(n, 0u8);
    rng.fill_bytes(&mut buf);
    buf
}

} // verus!

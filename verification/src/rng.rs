//! Random draws for transaction ids and root-server picks. A draw from a
//! seeded generator is reproducible — the same seed always gives the same
//! value — and so gets a name the contracts can speak of; a draw from the
//! thread generator promises nothing beyond its range.

use rand::{Rng, SeedableRng};
use rand_chacha::ChaCha8Rng;
use vstd::prelude::*;

verus! {

/// The first 16-bit value, over the full inclusive range, drawn by a ChaCha8
/// generator seeded with `seed`: a pure function of the seed.
pub uninterp spec fn seeded_id_of(seed: u64) -> u16;

/// The first index below `len` drawn by a ChaCha8 generator seeded with
/// `seed`: a pure function of the seed and the bound. The sampler for a
/// `usize` range follows the platform's pointer width, so the mapping is
/// fixed for a given build rather than across architectures.
pub uninterp spec fn seeded_index_of(seed: u64, len: usize) -> usize;

/// Relies on `ChaCha8Rng::seed_from_u64` (rand_chacha) and `Rng::gen_range`
/// (rand): both are deterministic, so the first draw over `0..=u16::MAX` is a
/// pure function of the seed, named `seeded_id_of`.
#[verifier::external_body]
pub(crate) fn seeded_id(seed: u64) -> (r: u16)
    ensures
        r == seeded_id_of(seed),
{
    ChaCha8Rng::seed_from_u64(seed).gen_range(0..=u16::MAX)
}

/// Relies on `ChaCha8Rng::seed_from_u64` (rand_chacha) and `Rng::gen_range`
/// (rand): the first draw over `0..len` is below `len` and is a pure function
/// of seed and bound, named `seeded_index_of`. `gen_range` panics on an empty
/// range, so `len` must be positive.
#[verifier::external_body]
pub(crate) fn seeded_index(seed: u64, len: usize) -> (r: usize)
    requires
        len >= 1,
    ensures
        r < len,
        r == seeded_index_of(seed, len),
{
    ChaCha8Rng::seed_from_u64(seed).gen_range(0..len)
}

/// Relies on `rand::thread_rng` and `Rng::gen_range`: a non-reproducible
/// 16-bit draw; any value can come back.
#[verifier::external_body]
pub(crate) fn random_id() -> (r: u16) {
    rand::thread_rng().gen_range(0..=u16::MAX)
}

/// Relies on `rand::thread_rng` and `Rng::gen_range`: a non-reproducible
/// draw over `0..len`, only known to be below `len`. `gen_range` panics on an
/// empty range, so `len` must be positive.
#[verifier::external_body]
pub(crate) fn random_index(len: usize) -> (r: usize)
    requires
        len >= 1,
    ensures
        r < len,
{
    rand::thread_rng().gen_range(0..len)
}

} // verus!

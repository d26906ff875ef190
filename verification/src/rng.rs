//! The crate's only source of randomness: thin wrappers over `rand`.
//!
//! Every stochastic rule of the game (spawn position, initial heading,
//! trail-gap fuse, power-up kind and spawn interval) draws through these
//! two functions, so everything proved about the simulation holds for
//! every value they can return.

use rand::Rng;
use vstd::prelude::*;

verus! {

/// Relies on `rand::Rng::gen_range` over a half-open `u64` range: the
/// sample always lies inside the range. An empty range panics, which the
/// precondition rules out.
#[verifier::external_body]
pub(crate) fn rand_u64_range(lo: u64, hi: u64) -> (r: u64)
    requires
        lo < hi,
    ensures
        lo <= r < hi,
{
    rand::thread_rng().gen_range(lo..hi)
}

/// Relies on `rand::Rng::gen_range` over a half-open `i64` range: the
/// sample always lies inside the range. An empty range panics, which the
/// precondition rules out.
#[verifier::external_body]
pub(crate) fn rand_i64_range(lo: i64, hi: i64) -> (r: i64)
    requires
        lo < hi,
    ensures
        lo <= r < hi,
{
    rand::thread_rng().gen_range(lo..hi)
}

} // verus!

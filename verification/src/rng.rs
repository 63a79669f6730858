//! Randomness for the food spawner, drawn from the rand crate behind
//! trusted wrappers. Nothing is assumed of an outcome beyond its bounds:
//! uniformity is a property of the distribution, not of any single draw,
//! and the verified callers hold for every value that comes back.

use vstd::prelude::*;

verus! {

/// The thread-local generator of the rand crate, opaque to verification.
#[verifier::external_type_specification]
#[verifier::external_body]
pub struct ExThreadRng(rand::rngs::ThreadRng);

/// Relies on rand::thread_rng: hands out the lazily initialized
/// thread-local generator. Nothing is assumed of the handle.
#[verifier::external_body]
pub fn thread_rng() -> rand::rngs::ThreadRng {
    rand::thread_rng()
}

/// Relies on rand::Rng::gen_range over the inclusive range `lo..=hi`,
/// which panics only on an empty range and returns a value within the
/// bounds.
#[verifier::external_body]
pub fn gen_range_i32(rng: &mut rand::rngs::ThreadRng, lo: i32, hi: i32) -> (r: i32)
    requires
        lo <= hi,
    ensures
        lo <= r <= hi,
{
    rand::Rng::gen_range(rng, lo..=hi)
}

} // verus!

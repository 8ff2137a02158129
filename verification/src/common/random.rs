//! Random values from the thread-local generator of the `rand` crate.
//!
//! Nothing is claimed of the values beyond their range and length: they depend
//! on the generator's state.

use vstd::prelude::*;
use rand::{Rng, RngCore};

verus! {

/// Calls `rand::thread_rng().gen_range(0..=max)`. The range is never empty, so
/// the call does not panic; the result lies in `0..=max`.
#[verifier::external_body]
pub(crate) fn random_usize_up_to(max: usize) -> (n: usize)
    ensures
        n <= max,
{
    rand::thread_rng().gen_range(0..=max)
}

/// Calls `rand::thread_rng().gen_range(min..=max)`, which panics on an empty
/// range (hence `min <= max`); the result lies in `min..=max`.
#[verifier::external_body]
pub(crate) fn random_u32_between(min: u32, max: u32) -> (n: u32)
    requires
        min <= max,
    ensures
        min <= n <= max,
{
    rand::thread_rng().gen_range(min..=max)
}

/// Calls `rand::thread_rng().fill_bytes` on a zeroed buffer of `len` bytes; the
/// result has exactly `len` bytes.
#[verifier::external_body]
pub(crate) fn random_bytes(len: usize) -> (v: Vec<u8>)
    ensures
        v@.len() == len,
{
    let mut v = vec![0u8; len];
    rand::thread_rng().fill_bytes(&mut v);
    v
}

} // verus!

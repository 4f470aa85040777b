//! Trusted wrappers around the `rand` crate. Every random draw the
//! simulation makes goes through one of these two functions; nothing is
//! assumed of a draw beyond its range.

use rand::Rng;
use vstd::prelude::*;

verus! {

/// Relies on rand::Rng::gen_range over `0..n`: it returns a value sampled
/// from the half-open range, and panics only when the range is empty.
#[verifier::external_body]
pub(crate) fn rand_index(n: usize) -> (r: usize)
    requires
        n > 0,
    ensures
        r < n,
{
    rand::thread_rng().gen_range(0..n)
}

/// Relies on rand::Rng::gen_range over `lo..hi`: it returns a value sampled
/// from the half-open range, and panics only when the range is empty.
#[verifier::external_body]
pub(crate) fn rand_i32(lo: i32, hi: i32) -> (r: i32)
    requires
        lo < hi,
    ensures
        lo <= r < hi,
{
    rand::thread_rng().gen_range(lo..hi)
}

} // verus!

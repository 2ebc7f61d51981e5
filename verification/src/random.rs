//! Chance, drawn from the thread-local generator of `rand`.

use vstd::prelude::*;
use rand::Rng;

verus! {

/// Calls `rand::thread_rng().gen_range(0..n)`, which draws a number below
/// `n` (it panics on an empty range, which `requires` rules out). Which
/// number comes back is chance and is not stated; `thread_rng` itself
/// panics only if the operating system cannot seed it.
#[verifier::external_body]
pub(crate) fn random_below(n: usize) -> (r: usize)
    requires
        n > 0,
    ensures
        r < n,
{
    rand::thread_rng().gen_range(0..n)
}

/// Calls `rand::random::<bool>()`, a fair coin; which side comes up is chance.
#[verifier::external_body]
pub(crate) fn random_bool() -> bool {
    rand::random::<bool>()
}

} // verus!

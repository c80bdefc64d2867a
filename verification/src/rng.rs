use vstd::prelude::*;
use rand::RngExt;

verus! {

/// Relies on `rand::RngExt::random_range` over `0..n` on the thread-local
/// generator from `rand::rng()`: the result is always strictly below `n`.
/// The range must be non-empty, since `random_range` panics on an empty one.
/// Nothing more is assumed of the draw: callers must hold for every outcome.
#[verifier::external_body]
pub(crate) fn rand_below(n: usize) -> (r: usize)
    requires
        n >= 1,
    ensures
        r < n,
{
    rand::rng().random_range(0..n)
}

} // verus!

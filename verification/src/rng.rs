//! The one random capability the game needs: pick an index below a bound,
//! uniformly, from the thread-local generator.

use vstd::prelude::*;
use rand::RngExt;

verus! {

/// Relies on rand's `rng()` thread-local generator and `RngExt::random_range`:
/// sampling from the range `0..n` yields a value below `n`, and panics only
/// when the range is empty, which the precondition rules out. The value drawn
/// is random, so nothing more is promised of it.
#[verifier::external_body]
pub(crate) fn random_below(n: usize) -> (r: usize)
    requires
        n > 0,
    ensures
        r < n,
{
    rand::rng().random_range(0..n)
}

} // verus!

use rand::Rng;
use vstd::prelude::*;

verus! {

/// `Rng::gen_range` of the `rand` crate on the thread-local generator, with
/// the half-open range `0..n`. The draw differs from call to call; all that
/// is claimed is that it lies in the range. An empty range makes the outside
/// function panic, so `n` must be positive.
#[verifier::external_body]
pub(crate) fn random_below(n: u32) -> (r: u32)
    requires
        n > 0,
    ensures
        r < n,
{
    rand::thread_rng().gen_range(0..n)
}

} // verus!

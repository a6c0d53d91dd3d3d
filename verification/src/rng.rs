//! The crate's single source of randomness.

use rand::Rng;
use vstd::prelude::*;

verus! {

/// Relies on rand::Rng::gen_range on an inclusive range, drawn from
/// rand::thread_rng: the sampled value lies within the range. gen_range
/// panics only on an empty range, which the precondition rules out.
#[verifier::external_body]
pub(crate) fn rand_in_range(lo: usize, hi: usize) -> (r: usize)
    requires
        lo <= hi,
    ensures
        lo <= r <= hi,
{
    rand::thread_rng().gen_range(lo..=hi)
}

} // verus!

use vstd::prelude::*;
use rand::Rng;
use rand::seq::SliceRandom;

verus! {

/// Relies on `rand::Rng::gen_range` over `0..len`: it returns a uniformly
/// chosen value of the non-empty range, so the result is below `len`. The
/// call panics on an empty range, which the precondition rules out.
#[verifier::external_body]
pub(crate) fn random_index(len: usize) -> (r: usize)
    requires
        len > 0,
    ensures
        r < len,
{
    rand::thread_rng().gen_range(0..len)
}

/// Relies on `rand::seq::SliceRandom::shuffle`: a Fisher-Yates shuffle that
/// reorders the slice in place by swapping elements, so the multiset of
/// elements (and with it the length) is unchanged. Which order comes out
/// depends on the thread's generator, so nothing more is promised.
#[verifier::external_body]
pub(crate) fn shuffle_indices(v: &mut Vec<usize>)
    ensures
        final(v)@.len() == old(v)@.len(),
        final(v)@.to_multiset() == old(v)@.to_multiset(),
{
    v.shuffle(&mut rand::thread_rng())
}

} // verus!

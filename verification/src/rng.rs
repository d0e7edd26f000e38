//! The one source of randomness the quiz generators draw from.

use vstd::prelude::*;
use rand::seq::SliceRandom;

verus! {

/// Relies on rand::random_range: returns a value drawn uniformly from
/// the half-open range; an empty range panics, so it is excluded here.
#[verifier::external_body]
pub(crate) fn rand_i64(lo: i64, hi: i64) -> (r: i64)
    requires
        lo < hi,
    ensures
        lo <= r < hi,
{
    rand::random_range(lo..hi)
}

/// Relies on rand::seq::SliceRandom::shuffle: permutes the slice in
/// place, so the elements are kept and only their order changes.
#[verifier::external_body]
pub(crate) fn shuffle_u16(v: &mut Vec<u16>)
    ensures
        final(v)@.len() == old(v)@.len(),
        final(v)@.to_multiset() == old(v)@.to_multiset(),
{
    v.as_mut_slice().shuffle(&mut rand::rng());
}

} // verus!

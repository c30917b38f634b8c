//! Random draws, from the thread-local generator of `rand`.
use vstd::prelude::*;

use rand::seq::IteratorRandom;
use rand::Rng;

verus! {

/// Relies on `rand::Rng::gen_range` over `0..bound`: a value of the range,
/// drawn uniformly; the range must not be empty.
#[verifier::external_body]
pub(crate) fn random_below(bound: u8) -> (r: u8)
    requires
        bound > 0,
    ensures
        r < bound,
{
    rand::thread_rng().gen_range(0..bound)
}

/// Relies on `rand::seq::IteratorRandom::choose` over `0..n`: `None` exactly
/// when the range is empty, otherwise one of its values.
#[verifier::external_body]
pub(crate) fn choose_index(n: usize) -> (r: Option<usize>)
    ensures
        r is None <==> n == 0,
        r matches Some(i) ==> i < n,
{
    (0..n).choose(&mut rand::thread_rng())
}

} // verus!

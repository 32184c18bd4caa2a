//! Random picks.
use vstd::prelude::*;

verus! {

/// Calls `rand::seq::IndexedRandom::choose` with the thread-local generator `rand::rng()`:
/// `None` for an empty slice, otherwise one of its items, picked at random. Which item comes
/// back is left open.
#[verifier::external_body]
pub(crate) fn choose_one<T: Copy>(items: &[T]) -> (r: Option<T>)
    ensures
        r.is_none() == (items@.len() == 0),
        r.is_some() ==> items@.contains(r.unwrap()),
{
    rand::seq::IndexedRandom::choose(items, &mut rand::rng()).copied()
}

} // verus!

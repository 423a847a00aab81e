//! Random choices. Each function states only what holds of every outcome.

use vstd::prelude::*;
use rand::seq::SliceRandom;
use rand::Rng;

verus! {

/// Whether a byte is an ASCII letter or digit.
pub open spec fn is_alnum_byte(b: u8) -> bool {
    (48 <= b <= 57) || (65 <= b <= 90) || (97 <= b <= 122)
}

/// `SliceRandom::shuffle` with the thread's generator: the list holds the
/// same items as before, each as often as before, in some order.
#[verifier::external_body]
pub(crate) fn shuffle<T>(list: &mut Vec<T>)
    ensures
        final(list)@.to_multiset() == old(list)@.to_multiset(),
{
    list.shuffle(&mut rand::thread_rng());
}

/// `Rng::gen_range(0..bound)` with the thread's generator: some index
/// below the bound. The call panics on an empty range, so the bound is
/// positive.
#[verifier::external_body]
pub(crate) fn pick_below(bound: usize) -> (index: usize)
    requires
        bound > 0,
    ensures
        index < bound,
{
    rand::thread_rng().gen_range(0..bound)
}

/// `SliceRandom::choose` with the thread's generator: nothing from an
/// empty list, otherwise one of its items.
#[verifier::external_body]
pub(crate) fn choose_one(list: &Vec<usize>) -> (picked: Option<usize>)
    ensures
        list@.len() == 0 ==> picked is None,
        list@.len() > 0 ==> picked is Some && list@.contains(picked->0),
{
    list.choose(&mut rand::thread_rng()).copied()
}

/// One sample of `rand::distributions::Alphanumeric` from the thread's
/// generator: an ASCII letter or digit.
#[verifier::external_body]
pub(crate) fn sample_alphanumeric() -> (b: u8)
    ensures
        is_alnum_byte(b),
{
    rand::thread_rng().sample(rand::distributions::Alphanumeric)
}

} // verus!

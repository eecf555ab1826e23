//! What this library takes on trust from the `rand` crate.
//!
//! Nothing here is proved. Each item states, of one item of `rand`, no more
//! than holds of every outcome of a draw.

use rand::rngs::ThreadRng;
use vstd::prelude::*;

verus! {

/// `rand::rngs::ThreadRng`, the handle to the thread-local generator. Its
/// state is hidden from the verifier: a value of this type is only carried to
/// the draws below.
#[verifier::external_type_specification]
#[verifier::external_body]
pub struct ExThreadRng(ThreadRng);

/// `rand::Rng::gen_range` on the inclusive range `low..=high` of `i32`.
///
/// Trusted: the value drawn lies in the range. The range must not be empty,
/// since `gen_range` panics on an empty range. Which value comes back is left
/// open.
#[verifier::external_body]
pub(crate) fn uniform_inclusive(rng: &mut ThreadRng, low: i32, high: i32) -> (drawn: i32)
    requires
        low <= high,
    ensures
        low <= drawn <= high,
{
    rand::Rng::gen_range(rng, low..=high)
}

/// `rand::seq::SliceRandom::shuffle` on a vector of `u32`.
///
/// Trusted: the shuffle only swaps items, so the vector afterwards holds the
/// same items as before, each as often as before. Their order is left open.
#[verifier::external_body]
pub(crate) fn shuffle(items: &mut Vec<u32>, rng: &mut ThreadRng)
    ensures
        final(items)@.to_multiset() == old(items)@.to_multiset(),
{
    rand::seq::SliceRandom::shuffle(items.as_mut_slice(), rng)
}

} // verus!

//! Rolling a six-sided die.

use crate::random::uniform_inclusive;
use rand::rngs::ThreadRng;
use vstd::prelude::*;

verus! {

/// `face` is one of the six faces of a die.
pub open spec fn is_face(face: int) -> bool {
    1 <= face <= 6
}

/// One roll of the die.
pub fn roll(rng: &mut ThreadRng) -> (face: i32)
    ensures
        is_face(face as int),
{
    uniform_inclusive(rng, 1, 6)
}

/// `count` rolls of the die, in the order in which they were made.
pub fn roll_many(rng: &mut ThreadRng, count: usize) -> (faces: Vec<i32>)
    ensures
        faces@.len() == count,
        forall|k: int| 0 <= k < count ==> is_face(#[trigger] faces@[k] as int),
{
    let mut faces: Vec<i32> = Vec::new();
    let mut k: usize = 0;
    while k < count
        invariant
            k <= count,
            faces@.len() == k,
            forall|j: int| 0 <= j < k ==> is_face(#[trigger] faces@[j] as int),
        decreases count - k,
    {
        faces.push(roll(rng));
        k += 1;
    }
    faces
}

} // verus!

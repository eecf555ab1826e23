//! Where the directions of a maze come from: chance, or a fixed choice.

use crate::maze::Direction;
use crate::random::uniform_inclusive;
use rand::rngs::ThreadRng;
use vstd::prelude::*;

verus! {

/// A source of directions, asked once for every pillar of a maze.
///
/// The sources of this crate are verified against the contract of
/// `next_direction`. A source written elsewhere has to keep to it by itself:
/// what is proved of a maze made from a source rests on it.
pub trait DirectionSource {
    /// Whether the source may still give `d`.
    spec fn offers(&self, d: Direction) -> bool;

    /// The next direction from the source. It is one that the source
    /// offered, and the source offers nothing afterwards that it did not
    /// offer before.
    fn next_direction(&mut self) -> (d: Direction)
        ensures
            old(self).offers(d),
            forall|e: Direction| final(self).offers(e) ==> old(self).offers(e),
    ;
}

/// The thread-local random generator gives each of the four directions, one
/// draw of a number from 0 to 3 per direction.
impl DirectionSource for ThreadRng {
    open spec fn offers(&self, d: Direction) -> bool {
        true
    }

    fn next_direction(&mut self) -> (d: Direction) {
        let drawn = uniform_inclusive(self, 0, 3);
        Direction::from_index(drawn).unwrap()
    }
}

/// The source that gives the same direction every time.
#[derive(Clone, Copy, PartialEq, Eq, Structural, Debug)]
pub struct Always {
    pub dir: Direction,
}

impl DirectionSource for Always {
    open spec fn offers(&self, d: Direction) -> bool {
        d == self.dir
    }

    fn next_direction(&mut self) -> (d: Direction) {
        self.dir
    }
}

/// Asks `source` for `count` directions, one after the other.
pub fn draw_directions<S: DirectionSource>(source: &mut S, count: usize) -> (picks: Vec<Direction>)
    ensures
        picks@.len() == count,
        forall|i: int| 0 <= i < count ==> old(source).offers(#[trigger] picks@[i]),
        forall|e: Direction| final(source).offers(e) ==> old(source).offers(e),
{
    let mut picks: Vec<Direction> = Vec::new();
    let mut k: usize = 0;
    while k < count
        invariant
            k <= count,
            picks@.len() == k,
            forall|i: int| 0 <= i < k ==> old(source).offers(#[trigger] picks@[i]),
            forall|e: Direction| source.offers(e) ==> old(source).offers(e),
        decreases count - k,
    {
        let dir = source.next_direction();
        picks.push(dir);
        k += 1;
    }
    picks
}

} // verus!

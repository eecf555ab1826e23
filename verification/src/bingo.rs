//! Bingo cards: twenty-four numbers drawn from 1 to 75 around a free centre.

use crate::random::shuffle;
use crate::text::{decimal, push_right_aligned, right_aligned};
use rand::rngs::ThreadRng;
use vstd::prelude::*;

verus! {

/// The numbers from 1 to `count`, in order.
pub open spec fn numbers(count: nat) -> Seq<u32> {
    Seq::new(count, |i: int| (i + 1) as u32)
}

/// The numbers from 1 to `count`, in order.
pub fn ordered_numbers(count: u32) -> (pool: Vec<u32>)
    ensures
        pool@ == numbers(count as nat),
{
    let mut pool: Vec<u32> = Vec::new();
    let mut i: u32 = 0;
    while i < count
        invariant
            i <= count,
            pool@ == numbers(i as nat),
        decreases count - i,
    {
        i += 1;
        pool.push(i);
    }
    pool
}

/// `pool` holds each number from 1 to its length exactly once.
pub open spec fn is_full_draw(pool: Seq<u32>) -> bool {
    &&& pool.no_duplicates()
    &&& forall|i: int| 0 <= i < pool.len() ==> 1 <= #[trigger] pool[i] <= pool.len()
}

/// The numbers from 1 to `count` in a random order.
pub fn draw_numbers(count: u32, rng: &mut ThreadRng) -> (pool: Vec<u32>)
    ensures
        pool@.to_multiset() == numbers(count as nat).to_multiset(),
        pool@.len() == count,
        is_full_draw(pool@),
{
    let mut pool = ordered_numbers(count);
    shuffle(&mut pool, rng);
    proof {
        lemma_rearranged_numbers(pool@, count as nat);
    }
    pool
}

/// A rearrangement of the numbers from 1 to `count` holds each of them
/// exactly once.
pub proof fn lemma_rearranged_numbers(pool: Seq<u32>, count: nat)
    requires
        count <= u32::MAX,
        pool.to_multiset() == numbers(count).to_multiset(),
    ensures
        pool.len() == count,
        is_full_draw(pool),
{
    let ordered = numbers(count);
    pool.to_multiset_ensures();
    ordered.to_multiset_ensures();
    ordered.lemma_multiset_has_no_duplicates();
    pool.lemma_multiset_has_no_duplicates_conv();
    assert forall|i: int| 0 <= i < pool.len() implies 1 <= #[trigger] pool[i] <= pool.len() by {
        assert(ordered.to_multiset().count(pool[i]) > 0);
    }
}

/// The place of the free centre among the twenty-five cells of a card.
pub const FREE_CELL: usize = 12;

/// The text of cell `i` of a card: the mark of the free centre, or the
/// number right-aligned in three characters with a comma behind it.
pub open spec fn cell_text(pool: Seq<u32>, free: Seq<char>, i: int) -> Seq<char> {
    if i == FREE_CELL {
        free
    } else {
        right_aligned(decimal(pool[i] as nat), 3) + seq![',']
    }
}

/// The text of the first `count` cells of a card, five to a line, each full
/// line ended by a line feed.
pub open spec fn cells_text(pool: Seq<u32>, free: Seq<char>, count: nat) -> Seq<char>
    decreases count,
{
    if count == 0 {
        Seq::empty()
    } else {
        let i = count - 1;
        cells_text(pool, free, i as nat) + cell_text(pool, free, i) + if i % 5 == 4 {
            seq!['\n']
        } else {
            Seq::empty()
        }
    }
}

/// The card made of the first twenty-five numbers of `pool`: five lines of
/// five cells, the centre cell showing `free` in place of its number.
pub fn card_text(pool: &[u32], free: &str) -> (text: String)
    requires
        pool@.len() >= 25,
    ensures
        text@ == cells_text(pool@, free@, 25),
{
    let mut text = String::new();
    let mut i: usize = 0;
    while i < 25
        invariant
            i <= 25,
            pool@.len() >= 25,
            text@ == cells_text(pool@, free@, i as nat),
        decreases 25 - i,
    {
        if i == FREE_CELL {
            text.append(free);
        } else {
            push_right_aligned(&mut text, pool[i] as u64, 3);
            text.push(',');
        }
        if i % 5 == 4 {
            text.push('\n');
        }
        i += 1;
    }
    text
}

} // verus!

//! The plan of a maze: which of its cells are walls, stated in closed form
//! over the size and the directions picked for the pillars.

use crate::maze::{Cell, Direction};
use vstd::prelude::*;

verus! {

/// `(r, c)` lies inside a grid of side `n`.
pub open spec fn in_grid(n: int, r: int, c: int) -> bool {
    0 <= r < n && 0 <= c < n
}

/// `(r, c)` lies on the perimeter, the outer ring, of a grid of side `n`.
pub open spec fn on_perimeter(n: int, r: int, c: int) -> bool {
    r == 0 || c == 0 || r == n - 1 || c == n - 1
}

/// `(r, c)` is a pillar of a grid of side `n`: both coordinates are even and
/// lie strictly between 1 and `n - 2`.
pub open spec fn is_pillar(n: int, r: int, c: int) -> bool {
    &&& 1 < r < n - 2
    &&& 1 < c < n - 2
    &&& r % 2 == 0
    &&& c % 2 == 0
}

/// The number of pillars in one pillar row of a grid of side `n`.
pub open spec fn pillars_per_row(n: int) -> int {
    if n < 3 {
        0
    } else {
        (n - 3) / 2
    }
}

/// The number of pillars of a grid of side `n`.
pub open spec fn pillar_total(n: int) -> int {
    pillars_per_row(n) * pillars_per_row(n)
}

/// The rank of pillar `(r, c)` when pillars are counted row by row, left to
/// right, from zero.
pub open spec fn pillar_index(n: int, r: int, c: int) -> int {
    (r / 2 - 1) * pillars_per_row(n) + (c / 2 - 1)
}

/// The direction picked for pillar `(r, c)` of a grid of side `n`, where
/// `picks` holds one direction per pillar in row-major order.
pub open spec fn pick_of(n: int, picks: Seq<Direction>, r: int, c: int) -> Direction {
    picks[pillar_index(n, r, c)]
}

/// Whether cell `(r, c)` is a wall in the maze of side `n` built from `picks`:
/// it lies on the perimeter, or it is a pillar, or the pillar next to it was
/// joined to it.
pub open spec fn wall_at(n: int, picks: Seq<Direction>, r: int, c: int) -> bool {
    ||| on_perimeter(n, r, c)
    ||| is_pillar(n, r, c)
    ||| is_pillar(n, r + 1, c) && pick_of(n, picks, r + 1, c) == Direction::Up
    ||| is_pillar(n, r - 1, c) && pick_of(n, picks, r - 1, c) == Direction::Down
    ||| is_pillar(n, r, c + 1) && pick_of(n, picks, r, c + 1) == Direction::Left
    ||| is_pillar(n, r, c - 1) && pick_of(n, picks, r, c - 1) == Direction::Right
}

/// The maze of side `n` built from `picks`.
pub open spec fn maze_of(n: nat, picks: Seq<Direction>) -> Seq<Seq<Cell>> {
    Seq::new(
        n,
        |r: int|
            Seq::new(
                n,
                |c: int|
                    if wall_at(n as int, picks, r, c) {
                        Cell::Wall
                    } else {
                        Cell::Open
                    },
            ),
    )
}

/// The rank of a pillar is below the number of pillars.
pub proof fn lemma_pillar_index_in_range(n: int, r: int, c: int)
    requires
        is_pillar(n, r, c),
    ensures
        0 <= pillar_index(n, r, c) < pillar_total(n),
{
    let m = pillars_per_row(n);
    let i = r / 2 - 1;
    assert(0 <= i * m && i * m + m <= m * m) by (nonlinear_arith)
        requires
            0 <= i < m,
    ;
}

/// The ranks follow the row-major order of the pillars: of two pillars, the
/// one in the upper row, or further left in the same row, has the lower rank.
/// So no two pillars share a rank, and each pick decides one pillar.
pub proof fn lemma_pillar_index_ordered(n: int, r1: int, c1: int, r2: int, c2: int)
    requires
        is_pillar(n, r1, c1),
        is_pillar(n, r2, c2),
    ensures
        pillar_index(n, r1, c1) < pillar_index(n, r2, c2) <==> r1 < r2 || (r1 == r2 && c1 < c2),
        pillar_index(n, r1, c1) == pillar_index(n, r2, c2) <==> r1 == r2 && c1 == c2,
{
    let m = pillars_per_row(n);
    let i1 = r1 / 2 - 1;
    let i2 = r2 / 2 - 1;
    let j1 = c1 / 2 - 1;
    let j2 = c2 / 2 - 1;
    assert(i1 < i2 ==> i1 * m + j1 < i2 * m + j2) by (nonlinear_arith)
        requires
            0 <= j1 < m,
            0 <= j2 < m,
    ;
    assert(i2 < i1 ==> i2 * m + j2 < i1 * m + j1) by (nonlinear_arith)
        requires
            0 <= j1 < m,
            0 <= j2 < m,
    ;
}

/// Every rank below the number of pillars is the rank of a pillar.
pub proof fn lemma_pillar_of_index(n: int, k: int) -> (at: (int, int))
    requires
        0 <= k < pillar_total(n),
    ensures
        is_pillar(n, at.0, at.1),
        pillar_index(n, at.0, at.1) == k,
{
    let m = pillars_per_row(n);
    assert(m > 0) by (nonlinear_arith)
        requires
            0 <= m,
            0 <= k < m * m,
    ;
    let i = k / m;
    let j = k % m;
    vstd::arithmetic::div_mod::lemma_fundamental_div_mod(k, m);
    assert(0 <= i < m) by (nonlinear_arith)
        requires
            0 <= k < m * m,
            k == m * i + j,
            0 <= j < m,
    ;
    assert(m * i == i * m) by (nonlinear_arith);
    (2 * i + 2, 2 * j + 2)
}

} // verus!

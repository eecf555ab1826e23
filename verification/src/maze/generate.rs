//! Building a maze, from given directions or from a source of directions.

use crate::maze::grid::{is_square, lemma_with_wall_cells, with_wall, Grid};
use crate::maze::laws::{
    even_walls_joined, lemma_maze_even_walls_joined, lemma_maze_perimeter, lemma_maze_pillars,
    perimeter_walled, pillars_walled,
};
use crate::maze::plan::{
    in_grid, is_pillar, lemma_pillar_index_in_range, maze_of, on_perimeter, pick_of, pillar_total,
    pillars_per_row,
};
use crate::maze::source::{draw_directions, DirectionSource};
use crate::maze::{joined_col, joined_row, Cell, Direction};
use vstd::prelude::*;

verus! {

/// Pillar `(pr, pc)` comes before `(y, x)` in row-major order.
spec fn comes_before(pr: int, pc: int, y: int, x: int) -> bool {
    pr < y || (pr == y && pc < x)
}

/// Whether cell `(r, c)` is a wall once the perimeter and all pillars before
/// `(y, x)` have been placed.
spec fn wall_so_far(n: int, picks: Seq<Direction>, y: int, x: int, r: int, c: int) -> bool {
    ||| on_perimeter(n, r, c)
    ||| is_pillar(n, r, c) && comes_before(r, c, y, x)
    ||| is_pillar(n, r + 1, c) && comes_before(r + 1, c, y, x) && pick_of(n, picks, r + 1, c)
        == Direction::Up
    ||| is_pillar(n, r - 1, c) && comes_before(r - 1, c, y, x) && pick_of(n, picks, r - 1, c)
        == Direction::Down
    ||| is_pillar(n, r, c + 1) && comes_before(r, c + 1, y, x) && pick_of(n, picks, r, c + 1)
        == Direction::Left
    ||| is_pillar(n, r, c - 1) && comes_before(r, c - 1, y, x) && pick_of(n, picks, r, c - 1)
        == Direction::Right
}

/// The number of pillars of a grid of side `size`.
pub fn pillar_count(size: usize) -> (count: usize)
    requires
        size * size <= usize::MAX,
    ensures
        count == pillar_total(size as int),
{
    let per_row: usize = if size < 3 {
        0
    } else {
        (size - 3) / 2
    };
    assert(per_row * per_row <= size * size) by (nonlinear_arith)
        requires
            0 <= per_row <= size,
    ;
    per_row * per_row
}

impl Grid {
    /// The maze of side `size` whose pillars are joined as `picks` says, one
    /// direction per pillar in row-major order. The same size and the same
    /// picks always give the same maze, so any source of directions can be
    /// put in the place of chance.
    pub fn from_picks(size: usize, picks: &[Direction]) -> (g: Grid)
        requires
            size * size <= usize::MAX,
            picks@.len() == pillar_total(size as int),
        ensures
            g@ == maze_of(size as nat, picks@),
    {
        let mut g = Grid::new(size);
        g.wall_perimeter();
        let limit: usize = if size < 2 {
            0
        } else {
            size - 2
        };
        let ghost n = size as int;
        let ghost per_row = pillars_per_row(n);
        let mut next: usize = 0;
        let mut y: usize = 2;
        assert(0 * per_row == 0);
        while y < limit
            invariant
                n == size,
                limit == if size < 2 { 0int } else { size - 2 },
                per_row == pillars_per_row(n),
                picks@.len() == per_row * per_row,
                2 <= y,
                y <= limit + 1 || y == 2,
                y % 2 == 0,
                next == (y / 2 - 1) * per_row,
                g@.len() == size,
                is_square(g@),
                forall|r: int, c: int|
                    in_grid(n, r, c) ==> (#[trigger] g@[r][c] == Cell::Wall <==> wall_so_far(
                        n,
                        picks@,
                        y as int,
                        2,
                        r,
                        c,
                    )),
            decreases limit + 2 - y,
        {
            let mut x: usize = 2;
            while x < limit
                invariant
                    n == size,
                    limit == size - 2,
                    per_row == pillars_per_row(n),
                    picks@.len() == per_row * per_row,
                    2 <= y < limit,
                    2 <= x <= limit + 1,
                    y % 2 == 0,
                    x % 2 == 0,
                    next == (y / 2 - 1) * per_row + (x / 2 - 1),
                    g@.len() == size,
                    is_square(g@),
                    forall|r: int, c: int|
                        in_grid(n, r, c) ==> (#[trigger] g@[r][c] == Cell::Wall <==> wall_so_far(
                            n,
                            picks@,
                            y as int,
                            x as int,
                            r,
                            c,
                        )),
                decreases limit + 1 - x,
            {
                proof {
                    lemma_pillar_index_in_range(n, y as int, x as int);
                }
                let dir = picks[next];
                let ghost before = g@;
                g.place_pillar(y, x, dir);
                proof {
                    let mid = with_wall(before, y as int, x as int);
                    lemma_with_wall_cells(before, y as int, x as int);
                    lemma_with_wall_cells(
                        mid,
                        joined_row(y as int, dir),
                        joined_col(x as int, dir),
                    );
                }
                next += 1;
                x += 2;
            }
            proof {
                assert((y / 2 - 1) * per_row + per_row == ((y + 2) / 2 - 1) * per_row)
                    by (nonlinear_arith)
                    requires
                        y % 2 == 0,
                ;
            }
            y += 2;
        }
        proof {
            let want = maze_of(size as nat, picks@);
            assert(forall|r: int| 0 <= r < n ==> #[trigger] g@[r] == want[r]);
        }
        g
    }
}

impl Grid {
    /// A maze of side `size`: every pillar is joined to the neighbour on the
    /// side that `source` gives for it, the pillars being taken in row-major
    /// order. Whatever the source gives, the perimeter and the pillars are
    /// walls, and every pillar has a wall beside it.
    pub fn generate<S: DirectionSource>(size: usize, source: &mut S) -> (g: Grid)
        requires
            size * size <= usize::MAX,
        ensures
            exists|picks: Seq<Direction>|
                {
                    &&& picks.len() == pillar_total(size as int)
                    &&& forall|i: int| 0 <= i < picks.len() ==> old(source).offers(picks[i])
                    &&& g@ == #[trigger] maze_of(size as nat, picks)
                },
            forall|e: Direction| final(source).offers(e) ==> old(source).offers(e),
            perimeter_walled(g@),
            pillars_walled(g@),
            size != 1 ==> even_walls_joined(g@),
    {
        let picks = draw_directions(source, pillar_count(size));
        proof {
            lemma_maze_perimeter(size as nat, picks@);
            lemma_maze_pillars(size as nat, picks@);
            if size != 1 {
                lemma_maze_even_walls_joined(size as nat, picks@);
            }
        }
        Grid::from_picks(size, picks.as_slice())
    }
}

} // verus!

//! What holds of every maze, whatever its size and the directions picked.

use crate::maze::plan::{
    in_grid, is_pillar, lemma_pillar_index_in_range, maze_of, on_perimeter, pillar_total,
};
use crate::maze::{joined_col, joined_row, opposite, Cell, Direction};
use vstd::prelude::*;

verus! {

/// Every cell on the perimeter of `g` is a wall.
pub open spec fn perimeter_walled(g: Seq<Seq<Cell>>) -> bool {
    forall|r: int, c: int|
        in_grid(g.len() as int, r, c) && on_perimeter(g.len() as int, r, c) ==> #[trigger] g[r][c]
            == Cell::Wall
}

/// Every pillar of `g` is a wall.
pub open spec fn pillars_walled(g: Seq<Seq<Cell>>) -> bool {
    forall|r: int, c: int| is_pillar(g.len() as int, r, c) ==> #[trigger] g[r][c] == Cell::Wall
}

/// One of the four neighbours of `(r, c)` lies in `g` and is a wall.
pub open spec fn wall_beside(g: Seq<Seq<Cell>>, r: int, c: int) -> bool {
    ||| in_grid(g.len() as int, r - 1, c) && g[r - 1][c] == Cell::Wall
    ||| in_grid(g.len() as int, r + 1, c) && g[r + 1][c] == Cell::Wall
    ||| in_grid(g.len() as int, r, c - 1) && g[r][c - 1] == Cell::Wall
    ||| in_grid(g.len() as int, r, c + 1) && g[r][c + 1] == Cell::Wall
}

/// Every wall of `g` whose row and column are both even has a wall beside it.
pub open spec fn even_walls_joined(g: Seq<Seq<Cell>>) -> bool {
    forall|r: int, c: int|
        in_grid(g.len() as int, r, c) && r % 2 == 0 && c % 2 == 0 && #[trigger] g[r][c]
            == Cell::Wall ==> wall_beside(g, r, c)
}

/// In a maze of any size, built from any picks, the whole perimeter is wall.
pub proof fn lemma_maze_perimeter(n: nat, picks: Seq<Direction>)
    ensures
        perimeter_walled(maze_of(n, picks)),
{
}

/// In a maze of any size, built from any picks, every pillar is a wall.
pub proof fn lemma_maze_pillars(n: nat, picks: Seq<Direction>)
    ensures
        pillars_walled(maze_of(n, picks)),
{
}

/// In a maze of odd side, every cell off the perimeter whose row and column
/// are both even is a pillar, and so a wall.
pub proof fn lemma_odd_maze_even_cells(n: nat, picks: Seq<Direction>, r: int, c: int)
    requires
        n % 2 == 1,
        in_grid(n as int, r, c),
        !on_perimeter(n as int, r, c),
        r % 2 == 0,
        c % 2 == 0,
    ensures
        is_pillar(n as int, r, c),
        maze_of(n, picks)[r][c] == Cell::Wall,
{
}

/// In a maze of any size, built from any picks, a cell off the perimeter
/// whose row and column are both odd is open: no pillar stands there, and no
/// pillar is joined to it.
pub proof fn lemma_odd_cells_open(n: nat, picks: Seq<Direction>, r: int, c: int)
    requires
        in_grid(n as int, r, c),
        !on_perimeter(n as int, r, c),
        r % 2 == 1,
        c % 2 == 1,
    ensures
        maze_of(n, picks)[r][c] == Cell::Open,
{
}

/// In a maze of any side but one, built from any picks, every wall at an even
/// row and an even column has a wall beside it: a cell of the perimeter has
/// the ring, a pillar has the neighbour it was joined to.
pub proof fn lemma_maze_even_walls_joined(n: nat, picks: Seq<Direction>)
    requires
        n != 1,
    ensures
        even_walls_joined(maze_of(n, picks)),
{
}

/// Two mazes of the same side in which every pillar is joined on the same
/// side `d` are the same maze: a source that always gives `d` gives one maze
/// per size, every time.
pub proof fn lemma_single_direction_one_maze(
    n: nat,
    first: Seq<Direction>,
    second: Seq<Direction>,
    d: Direction,
)
    requires
        first.len() == pillar_total(n as int),
        second.len() == pillar_total(n as int),
        forall|i: int| 0 <= i < first.len() ==> first[i] == d,
        forall|i: int| 0 <= i < second.len() ==> second[i] == d,
    ensures
        maze_of(n, first) == maze_of(n, second),
{
    assert(first =~= second);
}

/// When every pillar is joined on the same side `d`, the walls of the maze are
/// the perimeter, the pillars, and the cells that have a pillar on their side
/// opposite to `d`; every other cell is open. The maze is thus a function of
/// its size and of `d` alone.
pub proof fn lemma_single_direction(n: nat, picks: Seq<Direction>, d: Direction, r: int, c: int)
    requires
        picks.len() == pillar_total(n as int),
        forall|i: int| 0 <= i < picks.len() ==> picks[i] == d,
        in_grid(n as int, r, c),
    ensures
        maze_of(n, picks)[r][c] == Cell::Wall <==> {
            ||| on_perimeter(n as int, r, c)
            ||| is_pillar(n as int, r, c)
            ||| is_pillar(n as int, joined_row(r, opposite(d)), joined_col(c, opposite(d)))
        },
{
    let m = n as int;
    if is_pillar(m, r + 1, c) {
        lemma_pillar_index_in_range(m, r + 1, c);
    }
    if is_pillar(m, r - 1, c) {
        lemma_pillar_index_in_range(m, r - 1, c);
    }
    if is_pillar(m, r, c + 1) {
        lemma_pillar_index_in_range(m, r, c + 1);
    }
    if is_pillar(m, r, c - 1) {
        lemma_pillar_index_in_range(m, r, c - 1);
    }
}

} // verus!

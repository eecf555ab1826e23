//! The grid that holds the cells of a maze.

use crate::maze::plan::{in_grid, on_perimeter};
use crate::maze::{joined_col, joined_row, Cell, Direction};
use vstd::prelude::*;

verus! {

/// A square grid of cells, stored row by row in one vector.
#[derive(PartialEq, Eq, Debug)]
pub struct Grid {
    size: usize,
    cells: Vec<Cell>,
}

/// The place of cell `(r, c)` in the row-major storage of a grid of side `n`.
spec fn slot(n: int, r: int, c: int) -> int {
    r * n + c
}

/// Every cell of a grid of side `n` has its place inside a storage of
/// `n * n` cells.
proof fn lemma_slot_in_range(n: int, r: int, c: int)
    requires
        in_grid(n, r, c),
    ensures
        0 <= r * n <= slot(n, r, c) < n * n,
{
    assert(0 <= r * n && r * n + n <= n * n) by (nonlinear_arith)
        requires
            0 <= r < n,
    ;
}

/// Two cells of a grid share a storage slot only if they are the same cell.
proof fn lemma_slot_unique(n: int, r1: int, c1: int, r2: int, c2: int)
    requires
        in_grid(n, r1, c1),
        in_grid(n, r2, c2),
        slot(n, r1, c1) == slot(n, r2, c2),
    ensures
        r1 == r2,
        c1 == c2,
{
    assert(r1 == r2) by (nonlinear_arith)
        requires
            0 <= c1 < n,
            0 <= c2 < n,
            r1 * n + c1 == r2 * n + c2,
    ;
}

impl View for Grid {
    type V = Seq<Seq<Cell>>;

    /// The rows of the grid, top to bottom, each a sequence of cells from
    /// left to right.
    closed spec fn view(&self) -> Seq<Seq<Cell>> {
        Seq::new(
            self.size as nat,
            |r: int| Seq::new(self.size as nat, |c: int| self.cells@[slot(self.size as int, r, c)]),
        )
    }
}

/// `g` with cell `(r, c)` replaced by `cell`.
pub open spec fn with_cell(g: Seq<Seq<Cell>>, r: int, c: int, cell: Cell) -> Seq<Seq<Cell>> {
    g.update(r, g[r].update(c, cell))
}

/// Every row of `g` is as long as `g` has rows.
pub open spec fn is_square(g: Seq<Seq<Cell>>) -> bool {
    forall|r: int| 0 <= r < g.len() ==> (#[trigger] g[r]).len() == g.len()
}

/// The grid of side `n` in which every cell is open.
pub open spec fn open_grid(n: nat) -> Seq<Seq<Cell>> {
    Seq::new(n, |r: int| Seq::new(n, |c: int| Cell::Open))
}

impl Grid {
    #[verifier::type_invariant]
    spec fn stored_square(self) -> bool {
        self.cells@.len() == self.size * self.size <= usize::MAX
    }

    /// The view of any grid is square.
    pub proof fn lemma_view_is_square(&self)
        ensures
            is_square(self@),
    {
    }

    /// A grid of side `size` with every cell open.
    pub fn new(size: usize) -> (g: Grid)
        requires
            size * size <= usize::MAX,
        ensures
            g@ == open_grid(size as nat),
    {
        let mut cells: Vec<Cell> = Vec::new();
        let total: usize = size * size;
        let mut i: usize = 0;
        while i < total
            invariant
                i <= total,
                cells@.len() == i,
                forall|k: int| 0 <= k < i ==> cells@[k] == Cell::Open,
            decreases total - i,
        {
            cells.push(Cell::Open);
            i += 1;
        }
        let g = Grid { size, cells };
        proof {
            assert forall|r: int, c: int| in_grid(size as int, r, c) implies g.cells@[slot(
                size as int,
                r,
                c,
            )] == Cell::Open by {
                lemma_slot_in_range(size as int, r, c);
            }
            assert forall|r: int| 0 <= r < size implies #[trigger] g@[r] == open_grid(
                size as nat,
            )[r] by {
                assert forall|c: int| 0 <= c < size implies g@[r][c] == Cell::Open by {
                    assert(in_grid(size as int, r, c));
                }
            }
        }
        g
    }

    /// The side of the grid.
    pub fn size(&self) -> (n: usize)
        ensures
            n == self@.len(),
    {
        self.size
    }

    /// The cell at `(row, col)`.
    pub fn get(&self, row: usize, col: usize) -> (cell: Cell)
        requires
            row < self@.len(),
            col < self@.len(),
        ensures
            cell == self@[row as int][col as int],
    {
        proof {
            use_type_invariant(self);
            lemma_slot_in_range(self.size as int, row as int, col as int);
        }
        self.cells[row * self.size + col]
    }

    /// Whether the cell at `(row, col)` is a wall.
    pub fn is_wall(&self, row: usize, col: usize) -> (wall: bool)
        requires
            row < self@.len(),
            col < self@.len(),
        ensures
            wall == (self@[row as int][col as int] == Cell::Wall),
    {
        self.get(row, col) == Cell::Wall
    }

    /// Replaces the cell at `(row, col)` and leaves every other cell as it
    /// is.
    pub fn set(&mut self, row: usize, col: usize, cell: Cell)
        requires
            row < old(self)@.len(),
            col < old(self)@.len(),
        ensures
            final(self)@ == with_cell(old(self)@, row as int, col as int, cell),
    {
        proof {
            use_type_invariant(&*self);
            lemma_slot_in_range(self.size as int, row as int, col as int);
        }
        let at: usize = row * self.size + col;
        self.cells[at] = cell;
        proof {
            let n = self.size as int;
            assert forall|r: int, c: int| in_grid(n, r, c) implies self.cells@[slot(n, r, c)] == (
            if r == row && c == col {
                cell
            } else {
                old(self).cells@[slot(n, r, c)]
            }) by {
                lemma_slot_in_range(n, r, c);
                if slot(n, r, c) == at {
                    lemma_slot_unique(n, r, c, row as int, col as int);
                }
            }
            let after = with_cell(old(self)@, row as int, col as int, cell);
            assert forall|r: int| 0 <= r < n implies #[trigger] self@[r] == after[r] by {
                assert forall|c: int| 0 <= c < n implies self@[r][c] == after[r][c] by {
                    assert(in_grid(n, r, c));
                }
            }
        }
    }
}

/// `g` with cell `(r, c)` turned into a wall.
pub open spec fn with_wall(g: Seq<Seq<Cell>>, r: int, c: int) -> Seq<Seq<Cell>> {
    with_cell(g, r, c, Cell::Wall)
}

/// `g` with every cell of its perimeter turned into a wall.
pub open spec fn with_perimeter(g: Seq<Seq<Cell>>) -> Seq<Seq<Cell>> {
    Seq::new(
        g.len(),
        |r: int|
            Seq::new(
                g.len(),
                |c: int|
                    if on_perimeter(g.len() as int, r, c) {
                        Cell::Wall
                    } else {
                        g[r][c]
                    },
            ),
    )
}

/// Turning one cell of a square grid into a wall changes that cell and no
/// other.
pub proof fn lemma_with_wall_cells(g: Seq<Seq<Cell>>, r: int, c: int)
    requires
        is_square(g),
        in_grid(g.len() as int, r, c),
    ensures
        with_wall(g, r, c).len() == g.len(),
        is_square(with_wall(g, r, c)),
        forall|i: int, j: int|
            in_grid(g.len() as int, i, j) ==> #[trigger] with_wall(g, r, c)[i][j] == (if i == r
                && j == c {
                Cell::Wall
            } else {
                g[i][j]
            }),
{
}

impl Grid {
    /// Turns every cell of the perimeter into a wall and leaves the others
    /// as they are.
    pub fn wall_perimeter(&mut self)
        ensures
            final(self)@ == with_perimeter(old(self)@),
    {
        let n = self.size;
        let mut k: usize = 0;
        while k < n
            invariant
                k <= n,
                n == self@.len(),
                n == old(self)@.len(),
                is_square(self@),
                is_square(old(self)@),
                forall|r: int, c: int|
                    in_grid(n as int, r, c) ==> #[trigger] self@[r][c] == (if (r < k && (c == 0
                        || c == n - 1)) || (c < k && (r == 0 || r == n - 1)) {
                        Cell::Wall
                    } else {
                        old(self)@[r][c]
                    }),
            decreases n - k,
        {
            let ghost g0 = self@;
            self.set(k, 0, Cell::Wall);
            let ghost g1 = self@;
            self.set(0, k, Cell::Wall);
            let ghost g2 = self@;
            self.set(k, n - 1, Cell::Wall);
            let ghost g3 = self@;
            self.set(n - 1, k, Cell::Wall);
            proof {
                lemma_with_wall_cells(g0, k as int, 0);
                lemma_with_wall_cells(g1, 0, k as int);
                lemma_with_wall_cells(g2, k as int, n - 1);
                lemma_with_wall_cells(g3, n - 1, k as int);
            }
            k += 1;
        }
        proof {
            let after = with_perimeter(old(self)@);
            assert(forall|r: int| 0 <= r < n ==> #[trigger] self@[r] == after[r]);
        }
    }

    /// Places a pillar at `(row, col)`: the cell itself and its neighbour on
    /// the side `dir` become walls, and no other cell changes. Both cells
    /// must lie inside the grid.
    pub fn place_pillar(&mut self, row: usize, col: usize, dir: Direction)
        requires
            in_grid(old(self)@.len() as int, row as int, col as int),
            in_grid(
                old(self)@.len() as int,
                joined_row(row as int, dir),
                joined_col(col as int, dir),
            ),
        ensures
            final(self)@ == with_wall(
                with_wall(old(self)@, row as int, col as int),
                joined_row(row as int, dir),
                joined_col(col as int, dir),
            ),
    {
        self.set(row, col, Cell::Wall);
        match dir {
            Direction::Up => self.set(row - 1, col, Cell::Wall),
            Direction::Down => self.set(row + 1, col, Cell::Wall),
            Direction::Left => self.set(row, col - 1, Cell::Wall),
            Direction::Right => self.set(row, col + 1, Cell::Wall),
        }
    }
}

/// `cells` lists the walls of `g` that come before `(y, x)` in row-major
/// order, each once and in that order.
spec fn lists_walls_before(cells: Seq<(usize, usize)>, g: Seq<Seq<Cell>>, y: int, x: int) -> bool {
    &&& forall|k: int|
        0 <= k < cells.len() ==> {
            let (r, c) = #[trigger] cells[k];
            in_grid(g.len() as int, r as int, c as int) && g[r as int][c as int] == Cell::Wall && (r
                < y || (r == y && c < x))
        }
    &&& forall|j: int, k: int|
        0 <= j < k < cells.len() ==> {
            let (r1, c1) = #[trigger] cells[j];
            let (r2, c2) = #[trigger] cells[k];
            r1 < r2 || (r1 == r2 && c1 < c2)
        }
    &&& forall|r: usize, c: usize|
        in_grid(g.len() as int, r as int, c as int) && g[r as int][c as int] == Cell::Wall && (r
            < y || (r == y && c < x)) ==> #[trigger] cells.contains((r, c))
}

/// `cells` lists the walls of `g` by row and column, each once, row by row
/// from the top and from left to right within a row.
pub open spec fn lists_walls(cells: Seq<(usize, usize)>, g: Seq<Seq<Cell>>) -> bool {
    &&& forall|k: int|
        0 <= k < cells.len() ==> {
            let (r, c) = #[trigger] cells[k];
            in_grid(g.len() as int, r as int, c as int) && g[r as int][c as int] == Cell::Wall
        }
    &&& forall|j: int, k: int|
        0 <= j < k < cells.len() ==> {
            let (r1, c1) = #[trigger] cells[j];
            let (r2, c2) = #[trigger] cells[k];
            r1 < r2 || (r1 == r2 && c1 < c2)
        }
    &&& forall|r: usize, c: usize|
        in_grid(g.len() as int, r as int, c as int) && g[r as int][c as int] == Cell::Wall
            ==> #[trigger] cells.contains((r, c))
}

impl Grid {
    /// The walls of the grid by row and column, in row-major order.
    pub fn walls(&self) -> (cells: Vec<(usize, usize)>)
        ensures
            lists_walls(cells@, self@),
    {
        let n = self.size;
        let mut cells: Vec<(usize, usize)> = Vec::new();
        let mut row: usize = 0;
        while row < n
            invariant
                row <= n,
                n == self@.len(),
                lists_walls_before(cells@, self@, row as int, 0),
            decreases n - row,
        {
            let mut col: usize = 0;
            while col < n
                invariant
                    row < n,
                    col <= n,
                    n == self@.len(),
                    lists_walls_before(cells@, self@, row as int, col as int),
                decreases n - col,
            {
                if self.is_wall(row, col) {
                    let ghost earlier = cells@;
                    cells.push((row, col));
                    proof {
                        assert forall|r: usize, c: usize|
                            in_grid(n as int, r as int, c as int) && self@[r as int][c as int]
                                == Cell::Wall && (r < row || (r == row && c < col + 1))
                                implies #[trigger] cells@.contains((r, c)) by {
                            if r == row && c == col {
                                assert(cells@[earlier.len() as int] == (r, c));
                            } else {
                                assert(earlier.contains((r, c)));
                                let k = choose|k: int|
                                    0 <= k < earlier.len() && earlier[k] == (r, c);
                                assert(cells@[k] == (r, c));
                            }
                        }
                    }
                }
                col += 1;
            }
            row += 1;
        }
        cells
    }
}

} // verus!

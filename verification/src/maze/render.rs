//! A maze as text: two characters per cell, one line per row.

use crate::maze::grid::{is_square, Grid};
use crate::maze::Cell;
use vstd::arithmetic::div_mod::lemma_fundamental_div_mod_converse;
use vstd::prelude::*;

verus! {

/// The two characters that stand for a cell: blanks for an open cell, `ZZ`
/// for a wall.
pub open spec fn glyph(cell: Cell) -> Seq<char> {
    match cell {
        Cell::Open => seq![' ', ' '],
        Cell::Wall => seq!['Z', 'Z'],
    }
}

/// The glyphs of a row of cells, one after the other.
pub open spec fn row_text(row: Seq<Cell>) -> Seq<char>
    decreases row.len(),
{
    if row.len() == 0 {
        Seq::empty()
    } else {
        row_text(row.drop_last()) + glyph(row.last())
    }
}

/// The text of a grid: each row as its glyphs followed by a line feed.
pub open spec fn grid_text(rows: Seq<Seq<Cell>>) -> Seq<char>
    decreases rows.len(),
{
    if rows.len() == 0 {
        Seq::empty()
    } else {
        grid_text(rows.drop_last()) + row_text(rows.last()) + seq!['\n']
    }
}

impl Grid {
    /// The glyphs of row `row`, left to right.
    pub fn render_row(&self, row: usize) -> (text: String)
        requires
            row < self@.len(),
        ensures
            text@ == row_text(self@[row as int]),
            text@.len() == 2 * self@.len(),
    {
        let n = self.size();
        let ghost cells = self@[row as int];
        proof {
            self.lemma_view_is_square();
            lemma_row_text_layout(cells);
        }
        let mut text = String::new();
        let mut col: usize = 0;
        while col < n
            invariant
                col <= n,
                row < n,
                n == self@.len(),
                cells == self@[row as int],
                cells.len() == n,
                text@ == row_text(cells.take(col as int)),
            decreases n - col,
        {
            proof {
                reveal_strlit("ZZ");
                reveal_strlit("  ");
                assert(cells.take(col + 1).drop_last() == cells.take(col as int));
            }
            match self.get(row, col) {
                Cell::Wall => text.append("ZZ"),
                Cell::Open => text.append("  "),
            }
            col += 1;
        }
        assert(cells.take(col as int) == cells);
        text
    }

    /// The text of the grid, top to bottom: one line per row, each ended by a
    /// line feed.
    pub fn render(&self) -> (text: String)
        ensures
            text@ == grid_text(self@),
            is_square_text(text@, self@.len() as int),
    {
        let n = self.size();
        proof {
            self.lemma_view_is_square();
            lemma_grid_text_layout(self@);
        }
        let mut text = String::new();
        let mut row: usize = 0;
        while row < n
            invariant
                row <= n,
                n == self@.len(),
                text@ == grid_text(self@.take(row as int)),
            decreases n - row,
        {
            let line = self.render_row(row);
            proof {
                reveal_strlit("\n");
                assert(self@.take(row + 1).drop_last() == self@.take(row as int));
            }
            text.append(line.as_str());
            text.append("\n");
            row += 1;
        }
        assert(self@.take(row as int) == self@);
        text
    }
}

/// `text` is made of `n` lines, each of `n` two-character glyphs and a closing
/// line feed, and holds no other line feed.
pub open spec fn is_square_text(text: Seq<char>, n: int) -> bool {
    &&& text.len() == n * (2 * n + 1)
    &&& forall|i: int|
        0 <= i < text.len() ==> (#[trigger] text[i] == '\n' <==> i % (2 * n + 1) == 2 * n)
}

/// The text of a row of `k` cells holds `2 * k` characters, none of them a
/// line feed.
pub proof fn lemma_row_text_layout(row: Seq<Cell>)
    ensures
        row_text(row).len() == 2 * row.len(),
        forall|i: int| 0 <= i < row_text(row).len() ==> #[trigger] row_text(row)[i] != '\n',
        forall|c: int|
            0 <= c < row.len() ==> #[trigger] row_text(row).subrange(2 * c, 2 * c + 2) == glyph(
                row[c],
            ),
    decreases row.len(),
{
    if row.len() > 0 {
        let head = row.drop_last();
        lemma_row_text_layout(head);
        let text = row_text(row);
        assert forall|c: int| 0 <= c < row.len() implies #[trigger] text.subrange(
            2 * c,
            2 * c + 2,
        ) == glyph(row[c]) by {
            if c < head.len() {
                assert(text.subrange(2 * c, 2 * c + 2) =~= row_text(head).subrange(
                    2 * c,
                    2 * c + 2,
                ));
            }
        }
    }
}

/// The text of a square grid of side `n` is made of `n` lines of `n` glyphs
/// each.
pub proof fn lemma_grid_text_layout(g: Seq<Seq<Cell>>)
    requires
        is_square(g),
    ensures
        is_square_text(grid_text(g), g.len() as int),
{
    lemma_text_of_rows(g, g.len() as int);
}

/// Line `r` of the text of a square grid of side `n` holds the glyphs of
/// row `r`: it begins `r` full lines of `2 * n + 1` characters into the text.
pub proof fn lemma_grid_text_line(g: Seq<Seq<Cell>>, r: int)
    requires
        is_square(g),
        0 <= r < g.len(),
    ensures
        0 <= r * (2 * g.len() + 1),
        r * (2 * g.len() + 1) + 2 * g.len() < grid_text(g).len(),
        grid_text(g).subrange(r * (2 * g.len() + 1), r * (2 * g.len() + 1) + 2 * g.len())
            == row_text(g[r]),
{
    lemma_text_of_rows(g, g.len() as int);
    let line = 2 * g.len() + 1;
    assert(0 <= r * line && r * line + line <= g.len() * line) by (nonlinear_arith)
        requires
            0 <= r < g.len(),
            0 < line,
    ;
}

/// The text of `rows`, each `width` cells wide, is made of lines of `width`
/// glyphs each, one line per row.
proof fn lemma_text_of_rows(rows: Seq<Seq<Cell>>, width: int)
    requires
        forall|r: int| 0 <= r < rows.len() ==> (#[trigger] rows[r]).len() == width,
        0 <= width,
    ensures
        grid_text(rows).len() == rows.len() * (2 * width + 1),
        forall|i: int|
            0 <= i < grid_text(rows).len() ==> (#[trigger] grid_text(rows)[i] == '\n' <==> i % (2
                * width + 1) == 2 * width),
        forall|r: int|
            0 <= r < rows.len() ==> grid_text(rows).subrange(
                r * (2 * width + 1),
                r * (2 * width + 1) + 2 * width,
            ) == row_text(#[trigger] rows[r]),
    decreases rows.len(),
{
    if rows.len() > 0 {
        let head = rows.drop_last();
        let line = 2 * width + 1;
        let k = head.len() as int;
        lemma_text_of_rows(head, width);
        lemma_row_text_layout(rows.last());
        let text = grid_text(rows);
        assert(rows.len() * line == k * line + line) by (nonlinear_arith)
            requires
                rows.len() == k + 1,
        ;
        assert forall|i: int| 0 <= i < text.len() implies (#[trigger] text[i] == '\n' <==> i
            % line == 2 * width) by {
            if i >= k * line {
                lemma_fundamental_div_mod_converse(i, line, k, i - k * line);
            }
        }
        assert forall|r: int| 0 <= r < rows.len() implies text.subrange(
            r * line,
            r * line + 2 * width,
        ) == row_text(#[trigger] rows[r]) by {
            if r < k {
                assert(0 <= r * line && r * line + line <= k * line) by (nonlinear_arith)
                    requires
                        0 <= r < k,
                        0 < line,
                ;
                assert(head[r] == rows[r]);
                assert(text.subrange(r * line, r * line + 2 * width) =~= grid_text(head).subrange(
                    r * line,
                    r * line + 2 * width,
                ));
            }
        }
    }
}

} // verus!

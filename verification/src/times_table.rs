//! The multiplication table, each row set in columns three characters wide.

use crate::text::{decimal, push_right_aligned, right_aligned};
use vstd::prelude::*;

verus! {

/// The field of one product: its decimal digits, right-aligned in three
/// characters.
pub open spec fn field(product: nat) -> Seq<char> {
    right_aligned(decimal(product), 3)
}

/// The row of `y`: the fields of `1 * y` to `columns * y`, with a comma
/// between neighbours.
pub open spec fn row_text(y: nat, columns: nat) -> Seq<char>
    decreases columns,
{
    if columns == 0 {
        Seq::empty()
    } else if columns == 1 {
        field(y)
    } else {
        row_text(y, (columns - 1) as nat) + seq![','] + field(columns * y)
    }
}

/// The row of `y` in a table of `columns` columns.
pub fn table_row(y: u32, columns: u32) -> (text: String)
    ensures
        text@ == row_text(y as nat, columns as nat),
{
    let mut text = String::new();
    let mut x: u32 = 0;
    while x < columns
        invariant
            x <= columns,
            text@ == row_text(y as nat, x as nat),
        decreases columns - x,
    {
        if x > 0 {
            text.push(',');
        }
        x += 1;
        assert(x * y <= u64::MAX) by (nonlinear_arith)
            requires
                x <= u32::MAX,
                y <= u32::MAX,
        ;
        push_right_aligned(&mut text, x as u64 * y as u64, 3);
    }
    text
}

/// The table of `size` rows and `size` columns: row `y` holds the products
/// of `y` with 1 to `size`.
pub fn table(size: u32) -> (rows: Vec<String>)
    ensures
        rows@.len() == size,
        forall|k: int|
            0 <= k < size ==> (#[trigger] rows@[k])@ == row_text((k + 1) as nat, size as nat),
{
    let mut rows: Vec<String> = Vec::new();
    let mut y: u32 = 0;
    while y < size
        invariant
            y <= size,
            rows@.len() == y,
            forall|k: int|
                0 <= k < y ==> (#[trigger] rows@[k])@ == row_text((k + 1) as nat, size as nat),
        decreases size - y,
    {
        y += 1;
        rows.push(table_row(y, size));
    }
    rows
}

} // verus!

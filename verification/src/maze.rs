//! A square maze of walls and open cells.
//!
//! The perimeter, the outer ring of the grid, is always wall. Inside it,
//! every second cell of every second row is a pillar: a wall cell joined to
//! exactly one neighbour, picked by a direction. A maze is therefore fully
//! determined by its size and by one direction per pillar, taken in
//! row-major order.
//!
//! [`plan`] says in closed form which cells of such a maze are walls,
//! [`grid`] holds the cells, [`source`] gives the directions, by chance or by
//! a fixed choice, [`generate`] makes a grid according to the plan,
//! [`render`] turns a grid into text, and [`laws`] states what holds of every
//! maze.

use vstd::prelude::*;

pub mod generate;
pub mod grid;
pub mod laws;
pub mod plan;
pub mod render;
pub mod source;

pub use generate::pillar_count;
pub use grid::Grid;
pub use source::{draw_directions, Always, DirectionSource};

verus! {

/// The state of one grid position.
#[derive(Clone, Copy, PartialEq, Eq, Structural, Debug)]
pub enum Cell {
    Open,
    Wall,
}

/// The side on which a pillar is joined to a neighbouring cell.
#[derive(Clone, Copy, PartialEq, Eq, Structural, Debug)]
pub enum Direction {
    Up,
    Down,
    Left,
    Right,
}

/// The row of the cell that a pillar at row `r` is joined to.
pub open spec fn joined_row(r: int, d: Direction) -> int {
    match d {
        Direction::Up => r - 1,
        Direction::Down => r + 1,
        Direction::Left => r,
        Direction::Right => r,
    }
}

/// The column of the cell that a pillar at column `c` is joined to.
pub open spec fn joined_col(c: int, d: Direction) -> int {
    match d {
        Direction::Up => c,
        Direction::Down => c,
        Direction::Left => c - 1,
        Direction::Right => c + 1,
    }
}

/// The direction that points the other way.
pub open spec fn opposite(d: Direction) -> Direction {
    match d {
        Direction::Up => Direction::Down,
        Direction::Down => Direction::Up,
        Direction::Left => Direction::Right,
        Direction::Right => Direction::Left,
    }
}

impl Direction {
    /// The direction numbered `i`: 0 is up, 1 down, 2 left, 3 right. Other
    /// numbers name no direction.
    pub open spec fn of_index(i: int) -> Option<Direction> {
        if i == 0 {
            Some(Direction::Up)
        } else if i == 1 {
            Some(Direction::Down)
        } else if i == 2 {
            Some(Direction::Left)
        } else if i == 3 {
            Some(Direction::Right)
        } else {
            None
        }
    }

    /// Decodes a direction from its number.
    pub fn from_index(i: i32) -> (d: Option<Direction>)
        ensures
            d == Direction::of_index(i as int),
    {
        match i {
            0 => Some(Direction::Up),
            1 => Some(Direction::Down),
            2 => Some(Direction::Left),
            3 => Some(Direction::Right),
            _ => None,
        }
    }

    /// The number of this direction.
    pub fn index(self) -> (i: i32)
        ensures
            Direction::of_index(i as int) == Some(self),
    {
        match self {
            Direction::Up => 0,
            Direction::Down => 1,
            Direction::Left => 2,
            Direction::Right => 3,
        }
    }
}

} // verus!

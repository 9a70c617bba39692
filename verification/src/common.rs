//! Grid primitives: cells, positions and movement directions.

use vstd::prelude::*;

verus! {

/// One grid location: free to enter, or a wall.
#[derive(Debug, Clone, Copy, PartialEq, Eq, Structural)]
pub enum CellField {
    Empty,
    Wall,
}

/// A grid coordinate. Equality is by value.
#[derive(Debug, Clone, Copy, Hash, PartialEq, Eq, Structural)]
pub struct Position {
    pub x: usize,
    pub y: usize,
}

impl Position {
    pub fn new(x: usize, y: usize) -> (r: Self)
        ensures
            r == (Position { x, y }),
    {
        Self { x, y }
    }
}

/// One of the four cardinal movement directions.
#[derive(Debug, Clone, Copy, PartialEq, Eq, Structural)]
pub enum Direction {
    Up,
    Left,
    Right,
    Down,
}

/// The direction exactly opposite to `d`.
pub open spec fn opposite(d: Direction) -> Direction {
    match d {
        Direction::Up => Direction::Down,
        Direction::Down => Direction::Up,
        Direction::Left => Direction::Right,
        Direction::Right => Direction::Left,
    }
}

/// A requested direction is allowed unless it exactly reverses the current one.
pub open spec fn allows_spec(cur: Direction, req: Direction) -> bool {
    req != opposite(cur)
}

impl Direction {
    /// Whether a requested turn to `direction` is legal from `self`:
    /// false exactly for a 180-degree reversal.
    pub fn allows(&self, direction: &Self) -> (r: bool)
        ensures
            r == allows_spec(*self, *direction),
    {
        !matches!(
            (self, direction),
            (Direction::Up, Direction::Down)
                | (Direction::Left, Direction::Right)
                | (Direction::Right, Direction::Left)
                | (Direction::Down, Direction::Up)
        )
    }
}

/// The position one unit step from `p` in direction `d`.
///
/// Coordinates are unsigned; a step over either end of the `usize` range
/// wraps around. A wrapped coordinate lies outside every grid, so the
/// bounds check of the wall test rejects such a position.
pub open spec fn step_pos(p: Position, d: Direction) -> Position {
    match d {
        Direction::Up => Position {
            x: p.x,
            y: if p.y == usize::MAX {
                0
            } else {
                (p.y + 1) as usize
            },
        },
        Direction::Down => Position {
            x: p.x,
            y: if p.y == 0 {
                usize::MAX
            } else {
                (p.y - 1) as usize
            },
        },
        Direction::Left => Position {
            x: if p.x == 0 {
                usize::MAX
            } else {
                (p.x - 1) as usize
            },
            y: p.y,
        },
        Direction::Right => Position {
            x: if p.x == usize::MAX {
                0
            } else {
                (p.x + 1) as usize
            },
            y: p.y,
        },
    }
}

} // verus!

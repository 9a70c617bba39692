//! The level map: a fixed-size rectangle of cells with a wall lookup.

use vstd::prelude::*;

use crate::common::{CellField, Position};

verus! {

/// Whether `p` lies outside a `width` x `height` grid with cells `grid`
/// (rows indexed by `y`, columns by `x`), or on a wall cell of it.
pub open spec fn wall_at(grid: Seq<Seq<CellField>>, width: nat, height: nat, p: Position) -> bool {
    ||| p.x >= width
    ||| p.y >= height
    ||| grid[p.y as int][p.x as int] is Wall
}

/// A rectangular map of cells, with rows ordered as in the level text and
/// indexed by the `y` coordinate.
#[derive(Debug)]
pub struct Grid {
    pub rows: Vec<Vec<CellField>>,
    pub width: usize,
    pub height: usize,
}

impl Grid {
    /// The cells as a sequence of rows.
    pub open spec fn cells(&self) -> Seq<Seq<CellField>> {
        self.rows@.map_values(|row: Vec<CellField>| row@)
    }

    /// The map is a `width` x `height` rectangle with at least one row and
    /// one column.
    pub open spec fn wf(&self) -> bool {
        &&& self.rows@.len() == self.height
        &&& forall|i: int| 0 <= i < self.rows@.len() ==> (#[trigger] self.rows@[i])@.len() == self.width
        &&& self.width >= 1
        &&& self.height >= 1
    }

    /// Whether `position` is out of bounds or on a wall cell.
    pub fn on_walls(&self, position: &Position) -> (r: bool)
        requires
            self.wf(),
        ensures
            r == wall_at(self.cells(), self.width as nat, self.height as nat, *position),
    {
        position.x >= self.width || position.y >= self.height || matches!(
            self.rows[position.y][position.x],
            CellField::Wall
        )
    }
}

} // verus!

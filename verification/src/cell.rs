//! The state of a single cell and the rule that advances it.

use vstd::prelude::*;

verus! {

/// One grid position's state.
#[derive(Debug, PartialEq, Eq, Clone, Copy, Structural)]
pub enum Cell {
    Dead,
    Live,
}

impl Cell {
    /// The state a cell takes in the next generation, given how many of its
    /// neighbours are alive now: a live cell survives with two or three live
    /// neighbours, a dead cell comes alive with exactly three, and every
    /// other cell is dead.
    pub open spec fn next_state(self, neighbors: int) -> Cell {
        if neighbors == 3 || (self == Cell::Live && neighbors == 2) {
            Cell::Live
        } else {
            Cell::Dead
        }
    }

    /// Advances one cell by one generation.
    pub fn tick(self: Cell, neighbors: u8) -> (next: Cell)
        ensures
            next == self.next_state(neighbors as int),
    {
        match (self, neighbors) {
            (Cell::Live, 2) | (Cell::Live, 3) | (Cell::Dead, 3) => Cell::Live,
            _ => Cell::Dead,
        }
    }
}

} // verus!

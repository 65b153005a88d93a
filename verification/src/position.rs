//! Locators and dimensions: where a cell is, and how large the grid is.

use vstd::prelude::*;

verus! {

/// The coordinates of one cell. A position holds no state of its own.
pub struct Position {
    pub(crate) x: usize,
    pub(crate) y: usize,
}

impl View for Position {
    type V = (nat, nat);

    /// The pair `(x, y)`.
    open(crate) spec fn view(&self) -> (nat, nat) {
        (self.x as nat, self.y as nat)
    }
}

impl Position {
    /// The position with the given coordinates.
    pub fn new(x: usize, y: usize) -> (p: Position)
        ensures
            p@ == (x as nat, y as nat),
    {
        Position { x, y }
    }
}

/// The side length of a square grid, which is at least 1.
pub struct Size(pub usize);

} // verus!

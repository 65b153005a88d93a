//! The mathematical model of a generation: a sequence of columns of cells,
//! indexed `g[x][y]`, and the functions that say how generations follow one
//! another.

use vstd::prelude::*;
use crate::cell::Cell;

verus! {

/// One generation: `g[x][y]` is the state of the cell at `(x, y)`.
pub type Grid = Seq<Seq<Cell>>;

/// Every column is as long as the grid is wide.
pub open spec fn is_square(g: Grid) -> bool {
    forall|x: int| 0 <= x < g.len() ==> (#[trigger] g[x]).len() == g.len()
}

/// `(x, y)` names a cell of the grid.
pub open spec fn in_bounds(g: Grid, x: int, y: int) -> bool {
    0 <= x < g.len() && 0 <= y < g[x].len()
}

/// 1 if `(x, y)` names a live cell of the grid, 0 if the cell is dead or
/// the coordinates fall outside the grid. Nothing wraps round: a position
/// beyond an edge is never a cell.
pub open spec fn alive(g: Grid, x: int, y: int) -> int {
    if in_bounds(g, x, y) && g[x][y] == Cell::Live {
        1
    } else {
        0
    }
}

/// The lowest index within one step below `i`: `i - 1`, or 0 at the edge.
pub open spec fn range_low(i: int) -> int {
    if i > 0 {
        i - 1
    } else {
        0
    }
}

/// The highest index within one step above `i` in a line of `bound` cells:
/// `i + 1`, or `bound - 1` at the edge.
pub open spec fn range_high(i: int, bound: int) -> int {
    if i + 1 < bound {
        i + 1
    } else {
        bound - 1
    }
}

/// How many of the eight positions around `(x, y)` hold a live cell. The
/// cell itself is not counted, and neither is a position outside the grid.
pub open spec fn live_neighbors(g: Grid, x: int, y: int) -> int {
    alive(g, x - 1, y - 1) + alive(g, x - 1, y) + alive(g, x - 1, y + 1)
        + alive(g, x, y - 1) + alive(g, x, y + 1)
        + alive(g, x + 1, y - 1) + alive(g, x + 1, y) + alive(g, x + 1, y + 1)
}

/// The generation after `g`: every cell takes the state that the rule gives
/// it for its own state and its live neighbours in `g`.
pub open spec fn next_generation(g: Grid) -> Grid {
    Seq::new(
        g.len(),
        |x: int| Seq::new(g[x].len(), |y: int| g[x][y].next_state(live_neighbors(g, x, y))),
    )
}

/// The square grid of side `n` in which every cell is dead.
pub open spec fn all_dead(n: nat) -> Grid {
    Seq::new(n, |x: int| Seq::new(n, |y: int| Cell::Dead))
}

/// The grid `g` with the cell at `(x, y)` made live and every other cell
/// as it was.
pub open spec fn with_live(g: Grid, x: int, y: int) -> Grid {
    g.update(x, g[x].update(y, Cell::Live))
}

/// The positions of the live cells of `g`.
pub open spec fn live_set(g: Grid) -> Set<(int, int)> {
    Set::new(|p: (int, int)| in_bounds(g, p.0, p.1) && g[p.0][p.1] == Cell::Live)
}

/// Every position of `ps` names a cell of `g`.
pub open spec fn all_in_bounds(g: Grid, ps: Seq<(int, int)>) -> bool {
    forall|i: int| 0 <= i < ps.len() ==> in_bounds(g, (#[trigger] ps[i]).0, ps[i].1)
}

/// The grid `g` after the cells at the positions `ps` were made live, one
/// after the other. A position may occur more than once.
pub open spec fn seeded(g: Grid, ps: Seq<(int, int)>) -> Grid
    decreases ps.len(),
{
    if ps.len() == 0 {
        g
    } else {
        with_live(seeded(g, ps.drop_last()), ps.last().0, ps.last().1)
    }
}

} // verus!

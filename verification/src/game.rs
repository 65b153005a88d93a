//! The grid engine: the current generation and the operations on it.

use vstd::prelude::*;
use crate::cell::Cell;
use crate::grid::{
    alive, all_dead, is_square, live_neighbors, next_generation, range_high, range_low, with_live,
    Grid,
};
use crate::position::{Position, Size};

verus! {

/// What the nested vectors hold, column by column.
pub open spec fn grid_view(cells: &Vec<Vec<Cell>>) -> Grid {
    Seq::new(cells@.len(), |x: int| cells@[x]@)
}

/// What the cell at `(cx, cy)` adds to the neighbour count of `(x, y)`.
spec fn counted(g: Grid, x: int, y: int, cx: int, cy: int) -> int {
    if cx == x && cy == y {
        0
    } else {
        alive(g, cx, cy)
    }
}

/// The part of the neighbour count of `(x, y)` that comes from column `cx`,
/// rows below `rows` only.
spec fn counted_in_column(g: Grid, x: int, y: int, cx: int, rows: int) -> int {
    (if y - 1 < rows { counted(g, x, y, cx, y - 1) } else { 0 })
        + (if y < rows { counted(g, x, y, cx, y) } else { 0 })
        + (if y + 1 < rows { counted(g, x, y, cx, y + 1) } else { 0 })
}

/// The part of the neighbour count of `(x, y)` that comes from the columns
/// below `columns`.
spec fn counted_in_columns(g: Grid, x: int, y: int, columns: int) -> int {
    (if x - 1 < columns { counted_in_column(g, x, y, x - 1, y + 2) } else { 0 })
        + (if x < columns { counted_in_column(g, x, y, x, y + 2) } else { 0 })
        + (if x + 1 < columns { counted_in_column(g, x, y, x + 1, y + 2) } else { 0 })
}

/// A square grid of cells that is advanced one generation at a time.
pub struct Game {
    cells: Vec<Vec<Cell>>,
    size: usize,
}

impl View for Game {
    type V = Grid;

    /// The current generation.
    closed spec fn view(&self) -> Grid {
        grid_view(&self.cells)
    }
}

impl Game {
    /// The invariant of a game: the grid is square, at least one cell wide,
    /// and as wide as the recorded size says.
    pub closed spec fn wf(&self) -> bool {
        &&& self.size >= 1
        &&& self.cells@.len() == self.size
        &&& is_square(grid_view(&self.cells))
    }

    /// What the invariant says of the generation that a game holds: it is
    /// square and at least one cell wide.
    pub proof fn lemma_wf_is_square(&self)
        requires
            self.wf(),
        ensures
            is_square(self@),
            self@.len() >= 1,
    {
    }

    /// A grid of `size` by `size` cells, all of them dead. A grid has at
    /// least one cell, so the size is at least 1.
    pub fn new(size: Size) -> (game: Game)
        requires
            size.0 >= 1,
        ensures
            game.wf(),
            game@ == all_dead(size.0 as nat),
    {
        Game { cells: Game::dead_cells(size.0), size: size.0 }
    }

    /// `size` columns of `size` dead cells each.
    fn dead_cells(size: usize) -> (cells: Vec<Vec<Cell>>)
        ensures
            cells@.len() == size,
            grid_view(&cells) == all_dead(size as nat),
    {
        let column = vec![Cell::Dead; size];
        let cells = vec![column; size];
        proof {
            assert forall|x: int| 0 <= x < size implies (#[trigger] cells@[x])@ =~= Seq::new(
                size as nat,
                |y: int| Cell::Dead,
            ) by {
                assert(cloned(column, cells@[x]));
            }
            assert(grid_view(&cells) =~= all_dead(size as nat));
        }
        cells
    }

    /// The state of the cell at `p`.
    ///
    /// The position must lie on the grid. That is a precondition and not an
    /// error that is handed back: unverified code that calls this with a
    /// position off the grid panics on the index.
    pub fn get(&self, p: Position) -> (cell: &Cell)
        requires
            self.wf(),
            p@.0 < self@.len(),
            p@.1 < self@.len(),
        ensures
            *cell == self@[p@.0 as int][p@.1 as int],
    {
        assert(grid_view(&self.cells)[p.x as int].len() == self.size);
        &self.cells[p.x][p.y]
    }

    /// The range of indices within one step of `i` in a line of `bound`
    /// cells, both ends included. At an edge the range stops at the edge.
    pub fn get_range(i: usize, bound: usize) -> (range: (usize, usize))
        requires
            i < bound,
        ensures
            range.0 == range_low(i as int),
            range.1 == range_high(i as int, bound as int),
    {
        let i_from = if i > 0 { i - 1 } else { i };
        let i_to = if i < bound - 1 { i + 1 } else { i };
        (i_from, i_to)
    }

    /// Counts the live cells among the neighbours of `(x, y)` in a square
    /// grid. Positions beyond an edge are not neighbours.
    pub fn count_neighbors(grid: &Vec<Vec<Cell>>, x: usize, y: usize) -> (count: u8)
        requires
            is_square(grid_view(grid)),
            x < grid@.len(),
            y < grid@.len(),
        ensures
            count == live_neighbors(grid_view(grid), x as int, y as int),
    {
        let ghost g = grid_view(grid);
        let mut counter: u8 = 0;

        let (x_from, x_to) = Game::get_range(x, grid.len());
        let (y_from, y_to) = Game::get_range(y, grid.len());

        for xx in x_from..x_to + 1
            invariant
                g == grid_view(grid),
                g.len() == grid.len(),
                is_square(g),
                x < g.len(),
                y < g.len(),
                x_from == range_low(x as int),
                x_to == range_high(x as int, g.len() as int),
                y_from == range_low(y as int),
                y_to == range_high(y as int, g.len() as int),
                counter == counted_in_columns(g, x as int, y as int, xx as int),
        {
            assert(g[xx as int].len() == g.len());
            for yy in y_from..y_to + 1
                invariant
                    g == grid_view(grid),
                    g[xx as int].len() == g.len(),
                    x < g.len(),
                    y < g.len(),
                    x_from <= xx <= x_to,
                    x_from == range_low(x as int),
                    x_to == range_high(x as int, g.len() as int),
                    y_from == range_low(y as int),
                    y_to == range_high(y as int, g.len() as int),
                    counter == counted_in_columns(g, x as int, y as int, xx as int)
                        + counted_in_column(g, x as int, y as int, xx as int, yy as int),
            {
                if grid[xx][yy] == Cell::Live && (xx != x || yy != y) {
                    counter += 1
                }
            }
        }
        counter
    }

    /// Makes the cell at `p` live and leaves every other cell as it is. A
    /// cell that is live already stays live.
    ///
    /// The position must lie on the grid, as for [`Game::get`].
    pub fn set_live(&mut self, p: Position)
        requires
            old(self).wf(),
            p@.0 < old(self)@.len(),
            p@.1 < old(self)@.len(),
        ensures
            final(self).wf(),
            final(self)@ == with_live(old(self)@, p@.0 as int, p@.1 as int),
    {
        assert(grid_view(&self.cells)[p.x as int].len() == self.size);
        self.cells[p.x][p.y] = Cell::Live;
        proof {
            assert(grid_view(&self.cells) =~= with_live(
                grid_view(&old(self).cells),
                p.x as int,
                p.y as int,
            ));
        }
    }

    /// Replaces the grid by its next generation. Every cell of the new
    /// generation is computed from the old one alone: the new cells are
    /// written to a buffer of their own, which then takes the place of the
    /// old grid.
    pub fn tick(&mut self)
        requires
            old(self).wf(),
        ensures
            final(self).wf(),
            final(self)@ == next_generation(old(self)@),
    {
        let ghost g = grid_view(&self.cells);
        let mut next_grid = Game::dead_cells(self.size);
        proof {
            assert forall|cx: int| 0 <= cx < self.size implies (#[trigger] next_grid@[cx])@.len()
                == self.size by {
                assert(grid_view(&next_grid)[cx].len() == self.size);
            }
        }
        for x in 0..self.size
            invariant
                self.wf(),
                g == grid_view(&self.cells),
                next_grid@.len() == self.size,
                forall|cx: int|
                    0 <= cx < self.size ==> (#[trigger] next_grid@[cx])@.len() == self.size,
                forall|cx: int, cy: int|
                    0 <= cx < x && 0 <= cy < self.size ==> #[trigger] next_grid@[cx]@[cy]
                        == g[cx][cy].next_state(live_neighbors(g, cx, cy)),
        {
            assert(g[x as int].len() == self.size);
            for y in 0..self.size
                invariant
                    self.wf(),
                    g == grid_view(&self.cells),
                    g[x as int].len() == self.size,
                    x < self.size,
                    next_grid@.len() == self.size,
                    forall|cx: int|
                        0 <= cx < self.size ==> (#[trigger] next_grid@[cx])@.len() == self.size,
                    forall|cx: int, cy: int|
                        0 <= cx < x && 0 <= cy < self.size ==> #[trigger] next_grid@[cx]@[cy]
                            == g[cx][cy].next_state(live_neighbors(g, cx, cy)),
                    forall|cy: int|
                        0 <= cy < y ==> #[trigger] next_grid@[x as int]@[cy]
                            == g[x as int][cy].next_state(live_neighbors(g, x as int, cy)),
            {
                let cell = self.cells[x][y];
                let neighbors = Game::count_neighbors(&self.cells, x, y);
                next_grid[x][y] = cell.tick(neighbors);
            }
        }
        proof {
            assert(grid_view(&next_grid) =~~= next_generation(g));
        }
        self.cells = next_grid
    }
}

} // verus!

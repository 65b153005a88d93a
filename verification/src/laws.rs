//! What holds of every grid: the rule of life cell by cell, the clamped
//! edges, and how writing, reading and advancing fit together.

use vstd::prelude::*;
use crate::cell::Cell;
use crate::game::Game;
use crate::grid::{
    alive, all_dead, all_in_bounds, in_bounds, is_square, live_neighbors, live_set,
    next_generation, seeded, with_live, Grid,
};

verus! {

/// A fresh grid of side `n` is square, `n` cells wide, and every one of
/// its cells is dead.
pub proof fn lemma_fresh_grid_is_dead(n: nat)
    ensures
        all_dead(n).len() == n,
        is_square(all_dead(n)),
        forall|x: int, y: int| 0 <= x < n && 0 <= y < n ==> all_dead(n)[x][y] == Cell::Dead,
        forall|x: int, y: int| alive(all_dead(n), x, y) == 0,
{
}

/// Making a cell live changes that cell and no other: reading it back
/// gives `Live`, reading any other cell gives what was there before, and
/// the grid keeps its shape.
pub proof fn lemma_set_live_then_read(g: Grid, x: int, y: int)
    requires
        in_bounds(g, x, y),
    ensures
        with_live(g, x, y)[x][y] == Cell::Live,
        forall|qx: int, qy: int|
            in_bounds(g, qx, qy) && !(qx == x && qy == y) ==> with_live(g, x, y)[qx][qy]
                == g[qx][qy],
        with_live(g, x, y).len() == g.len(),
        forall|qx: int| 0 <= qx < g.len() ==> with_live(g, x, y)[qx].len() == g[qx].len(),
        is_square(g) ==> is_square(with_live(g, x, y)),
{
}

/// On a fresh grid, a cell that was never made live still reads `Dead`
/// after another cell was made live.
pub proof fn lemma_untouched_cell_stays_dead(n: nat, x: int, y: int, qx: int, qy: int)
    requires
        0 <= x < n,
        0 <= y < n,
        0 <= qx < n,
        0 <= qy < n,
        !(qx == x && qy == y),
    ensures
        with_live(all_dead(n), x, y)[qx][qy] == Cell::Dead,
{
}

/// Making a live cell live again changes nothing.
pub proof fn lemma_set_live_is_idempotent(g: Grid, x: int, y: int)
    requires
        in_bounds(g, x, y),
        g[x][y] == Cell::Live,
    ensures
        with_live(g, x, y) == g,
{
    assert(g[x].update(y, Cell::Live) =~= g[x]);
    assert(with_live(g, x, y) =~= g);
}

/// The next generation has the shape of the present one, and each of its
/// cells is what the rule gives for that cell's state and live neighbours
/// in the present generation: no cell of the next generation is looked at
/// while it is computed.
pub proof fn lemma_next_generation_is_synchronous(g: Grid)
    ensures
        next_generation(g).len() == g.len(),
        forall|x: int| 0 <= x < g.len() ==> next_generation(g)[x].len() == g[x].len(),
        forall|x: int, y: int|
            in_bounds(g, x, y) ==> next_generation(g)[x][y] == g[x][y].next_state(
                live_neighbors(g, x, y),
            ),
        is_square(g) ==> is_square(next_generation(g)),
{
}

/// Underpopulation: a live cell with fewer than two live neighbours is
/// dead in the next generation.
pub proof fn lemma_underpopulation(g: Grid, x: int, y: int)
    requires
        in_bounds(g, x, y),
        g[x][y] == Cell::Live,
        live_neighbors(g, x, y) < 2,
    ensures
        next_generation(g)[x][y] == Cell::Dead,
{
}

/// Survival: a live cell with exactly two or exactly three live
/// neighbours is live in the next generation.
pub proof fn lemma_survival(g: Grid, x: int, y: int)
    requires
        in_bounds(g, x, y),
        g[x][y] == Cell::Live,
        live_neighbors(g, x, y) == 2 || live_neighbors(g, x, y) == 3,
    ensures
        next_generation(g)[x][y] == Cell::Live,
{
}

/// Overcrowding: a live cell with more than three live neighbours is dead
/// in the next generation.
pub proof fn lemma_overcrowding(g: Grid, x: int, y: int)
    requires
        in_bounds(g, x, y),
        g[x][y] == Cell::Live,
        live_neighbors(g, x, y) > 3,
    ensures
        next_generation(g)[x][y] == Cell::Dead,
{
}

/// Reproduction: a dead cell with exactly three live neighbours is live in
/// the next generation, and with any other number it stays dead.
pub proof fn lemma_reproduction(g: Grid, x: int, y: int)
    requires
        in_bounds(g, x, y),
        g[x][y] == Cell::Dead,
    ensures
        live_neighbors(g, x, y) == 3 ==> next_generation(g)[x][y] == Cell::Live,
        live_neighbors(g, x, y) != 3 ==> next_generation(g)[x][y] == Cell::Dead,
{
}

/// A cell has at most eight live neighbours, a cell on an edge at most
/// five, and a cell in a corner at most three: what lies beyond an edge is
/// not counted.
pub proof fn lemma_neighbor_count_bounds(g: Grid, x: int, y: int)
    requires
        is_square(g),
        in_bounds(g, x, y),
    ensures
        0 <= live_neighbors(g, x, y) <= 8,
        (x == 0 || x == g.len() - 1 || y == 0 || y == g.len() - 1) ==> live_neighbors(g, x, y)
            <= 5,
        (x == 0 || x == g.len() - 1) && (y == 0 || y == g.len() - 1) ==> live_neighbors(g, x, y)
            <= 3,
        g.len() == 1 ==> live_neighbors(g, x, y) == 0,
{
    let n = g.len() as int;
    if x + 1 < n {
        assert(g[x + 1].len() == n);
    }
    if x > 0 {
        assert(g[x - 1].len() == n);
    }
    assert(g[x].len() == n);
}

/// The neighbours of the corner `(0, 0)` are the three cells `(0, 1)`,
/// `(1, 0)` and `(1, 1)` and no others.
pub proof fn lemma_corner_neighbors(g: Grid)
    requires
        is_square(g),
        g.len() >= 1,
    ensures
        live_neighbors(g, 0, 0) == alive(g, 0, 1) + alive(g, 1, 0) + alive(g, 1, 1),
{
}

/// The count at `(x, y)` depends only on the eight cells around it: two
/// grids that agree there give the same count, whatever they hold further
/// away, the far edge included.
pub proof fn lemma_neighbor_count_is_local(g: Grid, h: Grid, x: int, y: int)
    requires
        forall|cx: int, cy: int|
            x - 1 <= cx <= x + 1 && y - 1 <= cy <= y + 1 && !(cx == x && cy == y) ==> alive(
                g,
                cx,
                cy,
            ) == alive(h, cx, cy),
    ensures
        live_neighbors(g, x, y) == live_neighbors(h, x, y),
{
}

/// Advancing is a function of the grid alone: two games that hold the
/// same generation hold the same generation after each has been advanced.
pub proof fn lemma_tick_is_deterministic(a: Game, b: Game, a_next: Game, b_next: Game)
    requires
        a@ == b@,
        a_next@ == next_generation(a@),
        b_next@ == next_generation(b@),
    ensures
        a_next@ == b_next@,
{
}

/// A grid of a single cell has no neighbours to count, so its cell is dead
/// after one generation, whatever it was.
pub proof fn lemma_single_cell_dies(g: Grid)
    requires
        is_square(g),
        g.len() == 1,
    ensures
        next_generation(g)[0][0] == Cell::Dead,
{
    lemma_neighbor_count_bounds(g, 0, 0);
}

/// Seeding keeps the shape of the grid and only ever makes cells live: a
/// cell is live afterwards exactly if it was live before or its position
/// is among those seeded.
pub proof fn lemma_seeded_cells(g: Grid, ps: Seq<(int, int)>)
    requires
        all_in_bounds(g, ps),
    ensures
        seeded(g, ps).len() == g.len(),
        forall|x: int| 0 <= x < g.len() ==> (#[trigger] seeded(g, ps)[x]).len() == g[x].len(),
        is_square(g) ==> is_square(seeded(g, ps)),
        forall|x: int, y: int|
            in_bounds(g, x, y) ==> (#[trigger] seeded(g, ps)[x][y] == Cell::Live <==> g[x][y]
                == Cell::Live || ps.contains((x, y))),
    decreases ps.len(),
{
    if ps.len() > 0 {
        let rest = ps.drop_last();
        let last = ps.last();
        assert(all_in_bounds(g, rest)) by {
            assert forall|i: int| 0 <= i < rest.len() implies in_bounds(
                g,
                (#[trigger] rest[i]).0,
                rest[i].1,
            ) by {
                assert(rest[i] == ps[i]);
            }
        }
        lemma_seeded_cells(g, rest);
        let before = seeded(g, rest);
        assert(in_bounds(g, last.0, last.1)) by {
            assert(ps[ps.len() - 1] == last);
        }
        assert(before[last.0].len() == g[last.0].len());
        assert forall|x: int, y: int| in_bounds(g, x, y) implies (#[trigger] seeded(g, ps)[x][y]
            == Cell::Live <==> g[x][y] == Cell::Live || ps.contains((x, y))) by {
            assert(before[x].len() == g[x].len());
            if ps.contains((x, y)) {
                let i = choose|i: int| 0 <= i < ps.len() && ps[i] == (x, y);
                if i < ps.len() - 1 {
                    assert(rest[i] == (x, y));
                    assert(rest.contains((x, y)));
                } else {
                    assert(last == (x, y));
                }
            }
            if rest.contains((x, y)) {
                let i = choose|i: int| 0 <= i < rest.len() && rest[i] == (x, y);
                assert(ps[i] == (x, y));
            }
            if last == (x, y) {
                assert(ps[ps.len() - 1] == (x, y));
            }
        }
        assert forall|x: int| 0 <= x < g.len() implies (#[trigger] seeded(g, ps)[x]).len()
            == g[x].len() by {
            assert(before[x].len() == g[x].len());
        }
        if is_square(g) {
            assert forall|x: int| 0 <= x < seeded(g, ps).len() implies (#[trigger] seeded(
                g,
                ps,
            )[x]).len() == seeded(g, ps).len() by {
                assert(g[x].len() == g.len());
            }
        }
    }
}

/// On a fresh grid the live cells after seeding are exactly the positions
/// seeded, so there are no more of them than positions were given.
pub proof fn lemma_seeded_fresh_grid(n: nat, ps: Seq<(int, int)>)
    requires
        all_in_bounds(all_dead(n), ps),
    ensures
        live_set(seeded(all_dead(n), ps)) == ps.to_set(),
        live_set(seeded(all_dead(n), ps)).finite(),
        live_set(seeded(all_dead(n), ps)).len() <= ps.len(),
{
    let fresh = all_dead(n);
    let g = seeded(fresh, ps);
    lemma_seeded_cells(fresh, ps);
    assert forall|p: (int, int)| live_set(g).contains(p) <==> ps.to_set().contains(p) by {
        if ps.contains(p) {
            let i = choose|i: int| 0 <= i < ps.len() && ps[i] == p;
            assert(in_bounds(fresh, p.0, p.1));
        }
        if in_bounds(fresh, p.0, p.1) {
            assert(g[p.0].len() == fresh[p.0].len());
            assert(g[p.0][p.1] == Cell::Live <==> ps.contains((p.0, p.1)));
        } else {
            if 0 <= p.0 < n {
                assert(g[p.0].len() == fresh[p.0].len());
            }
        }
    }
    assert(live_set(g) =~= ps.to_set());
    vstd::seq_lib::seq_to_set_is_finite(ps);
    ps.lemma_cardinality_of_set();
}

} // verus!

//! Random initial states: a fresh grid with cells made live at positions
//! drawn from a random number generator.

use vstd::prelude::*;
use rand::rngs::ThreadRng;
use rand::Rng;
use crate::game::Game;
use crate::grid::{all_dead, all_in_bounds, live_set, seeded};
use crate::laws::lemma_seeded_fresh_grid;
use crate::position::{Position, Size};

verus! {

/// `rand::rngs::ThreadRng`, the handle to the thread's random number
/// generator. Nothing is known of what it holds.
#[verifier::external_type_specification]
#[verifier::external_body]
pub struct ExThreadRng(rand::rngs::ThreadRng);

/// Draws an index below `bound` with `rand::Rng::random_range` on the range
/// `0..bound`.
///
/// Not proved: that the value drawn lies in the range, which is what the
/// method is documented to return. The method panics on an empty range,
/// hence `bound > 0`. Nothing is said of which index is drawn: two calls
/// may differ. The generator reseeds itself from the operating system from
/// time to time and panics should that source fail.
#[verifier::external_body]
fn random_below(rng: &mut ThreadRng, bound: usize) -> (index: usize)
    requires
        bound > 0,
    ensures
        index < bound,
{
    rng.random_range(0..bound)
}

/// A fresh grid of side `size` on which `live_cells` positions were drawn
/// at random and the cell at each was made live. A position may be drawn
/// more than once, so at most `live_cells` cells are live.
pub fn initialize_game(rng: &mut ThreadRng, size: Size, live_cells: usize) -> (game: Game)
    requires
        size.0 >= 1,
    ensures
        game.wf(),
        game@.len() == size.0,
        live_set(game@).finite(),
        live_set(game@).len() <= live_cells,
        exists|ps: Seq<(int, int)>|
            ps.len() == live_cells && #[trigger] all_in_bounds(all_dead(size.0 as nat), ps)
                && game@ == seeded(all_dead(size.0 as nat), ps),
{
    let bound = size.0;
    let ghost fresh = all_dead(bound as nat);
    let mut game = Game::new(size);
    let ghost mut ps: Seq<(int, int)> = Seq::empty();

    for i in 0..live_cells
        invariant
            bound >= 1,
            fresh == all_dead(bound as nat),
            game.wf(),
            ps.len() == i,
            all_in_bounds(fresh, ps),
            game@ == seeded(fresh, ps),
            game@.len() == bound,
    {
        let x = random_below(rng, bound);
        let y = random_below(rng, bound);
        let p = Position::new(x, y);
        game.set_live(p);
        proof {
            let before = ps;
            ps = ps.push((x as int, y as int));
            assert(ps.drop_last() =~= before);
            assert(ps.last() == (x as int, y as int));
        }
    }
    proof {
        lemma_seeded_fresh_grid(bound as nat, ps);
    }
    game
}

} // verus!

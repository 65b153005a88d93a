use gol::seed::initialize_game;
use gol::{Cell, Game, Position, Size};

fn game_with(size: usize, live: &[(usize, usize)]) -> Game {
    let mut game = Game::new(Size(size));
    for &(x, y) in live {
        game.set_live(Position::new(x, y));
    }
    game
}

fn cells_of(game: &Game, size: usize) -> Vec<Vec<Cell>> {
    let mut cells = Vec::new();
    for x in 0..size {
        let mut column = Vec::new();
        for y in 0..size {
            column.push(*game.get(Position::new(x, y)));
        }
        cells.push(column);
    }
    cells
}

fn live_cells_of(game: &Game, size: usize) -> Vec<(usize, usize)> {
    let mut live = Vec::new();
    for x in 0..size {
        for y in 0..size {
            if *game.get(Position::new(x, y)) == Cell::Live {
                live.push((x, y));
            }
        }
    }
    live
}

fn raw_grid(size: usize, live: &[(usize, usize)]) -> Vec<Vec<Cell>> {
    let mut grid = vec![vec![Cell::Dead; size]; size];
    for &(x, y) in live {
        grid[x][y] = Cell::Live;
    }
    grid
}

#[test]
fn rule_table_for_a_live_cell() {
    assert_eq!(Cell::Live.tick(0), Cell::Dead);
    assert_eq!(Cell::Live.tick(1), Cell::Dead);
    assert_eq!(Cell::Live.tick(2), Cell::Live);
    assert_eq!(Cell::Live.tick(3), Cell::Live);
    assert_eq!(Cell::Live.tick(4), Cell::Dead);
    assert_eq!(Cell::Live.tick(5), Cell::Dead);
    assert_eq!(Cell::Live.tick(6), Cell::Dead);
    assert_eq!(Cell::Live.tick(7), Cell::Dead);
    assert_eq!(Cell::Live.tick(8), Cell::Dead);
}

#[test]
fn rule_table_for_a_dead_cell() {
    assert_eq!(Cell::Dead.tick(0), Cell::Dead);
    assert_eq!(Cell::Dead.tick(1), Cell::Dead);
    assert_eq!(Cell::Dead.tick(2), Cell::Dead);
    assert_eq!(Cell::Dead.tick(3), Cell::Live);
    assert_eq!(Cell::Dead.tick(4), Cell::Dead);
    assert_eq!(Cell::Dead.tick(5), Cell::Dead);
    assert_eq!(Cell::Dead.tick(6), Cell::Dead);
    assert_eq!(Cell::Dead.tick(7), Cell::Dead);
    assert_eq!(Cell::Dead.tick(8), Cell::Dead);
}

#[test]
fn rule_on_counts_no_grid_can_give() {
    assert_eq!(Cell::Live.tick(9), Cell::Dead);
    assert_eq!(Cell::Dead.tick(255), Cell::Dead);
}

#[test]
fn fresh_grid_is_all_dead() {
    for size in [1usize, 2, 3, 7, 20] {
        let game = Game::new(Size(size));
        for x in 0..size {
            for y in 0..size {
                assert_eq!(*game.get(Position::new(x, y)), Cell::Dead);
            }
        }
    }
}

#[test]
fn set_live_changes_one_cell_only() {
    let mut game = Game::new(Size(6));
    game.set_live(Position::new(2, 4));
    for x in 0..6 {
        for y in 0..6 {
            let expected = if (x, y) == (2, 4) { Cell::Live } else { Cell::Dead };
            assert_eq!(*game.get(Position::new(x, y)), expected);
        }
    }
}

#[test]
fn set_live_is_not_transposed() {
    let mut game = Game::new(Size(4));
    game.set_live(Position::new(0, 3));
    assert_eq!(*game.get(Position::new(0, 3)), Cell::Live);
    assert_eq!(*game.get(Position::new(3, 0)), Cell::Dead);
}

#[test]
fn set_live_twice_is_a_no_op() {
    let mut once = Game::new(Size(5));
    once.set_live(Position::new(1, 3));
    let mut twice = Game::new(Size(5));
    twice.set_live(Position::new(1, 3));
    twice.set_live(Position::new(1, 3));
    assert_eq!(cells_of(&once, 5), cells_of(&twice, 5));
}

#[test]
fn range_in_the_middle_and_at_the_edges() {
    assert_eq!(Game::get_range(2, 5), (1, 3));
    assert_eq!(Game::get_range(0, 5), (0, 1));
    assert_eq!(Game::get_range(4, 5), (3, 4));
    assert_eq!(Game::get_range(0, 1), (0, 0));
    assert_eq!(Game::get_range(0, 2), (0, 1));
    assert_eq!(Game::get_range(1, 2), (0, 1));
}

#[test]
fn count_in_the_interior() {
    let all: Vec<(usize, usize)> = (0..3).flat_map(|x| (0..3).map(move |y| (x, y))).collect();
    let grid = raw_grid(3, &all);
    assert_eq!(Game::count_neighbors(&grid, 1, 1), 8);
    let empty = raw_grid(3, &[]);
    assert_eq!(Game::count_neighbors(&empty, 1, 1), 0);
    let only_centre = raw_grid(3, &[(1, 1)]);
    assert_eq!(Game::count_neighbors(&only_centre, 1, 1), 0);
    let some = raw_grid(5, &[(1, 1), (1, 3), (3, 2), (2, 2), (4, 4), (0, 0)]);
    assert_eq!(Game::count_neighbors(&some, 2, 2), 3);
}

#[test]
fn count_at_corners_and_edges_of_a_full_grid() {
    let all: Vec<(usize, usize)> = (0..4).flat_map(|x| (0..4).map(move |y| (x, y))).collect();
    let grid = raw_grid(4, &all);
    for &(x, y) in &[(0usize, 0usize), (0, 3), (3, 0), (3, 3)] {
        assert_eq!(Game::count_neighbors(&grid, x, y), 3);
    }
    for &(x, y) in &[(0usize, 1usize), (0, 2), (3, 1), (3, 2), (1, 0), (2, 0), (1, 3), (2, 3)] {
        assert_eq!(Game::count_neighbors(&grid, x, y), 5);
    }
    for &(x, y) in &[(1usize, 1usize), (1, 2), (2, 1), (2, 2)] {
        assert_eq!(Game::count_neighbors(&grid, x, y), 8);
    }
}

#[test]
fn count_does_not_wrap_to_the_far_edge() {
    let grid = raw_grid(5, &[(4, 0), (4, 1), (4, 4), (0, 4), (1, 4)]);
    assert_eq!(Game::count_neighbors(&grid, 0, 0), 0);
    let grid = raw_grid(5, &[(0, 0), (0, 1), (0, 4), (4, 0), (3, 0)]);
    assert_eq!(Game::count_neighbors(&grid, 4, 4), 0);
}

#[test]
fn count_on_a_single_cell_grid() {
    assert_eq!(Game::count_neighbors(&raw_grid(1, &[(0, 0)]), 0, 0), 0);
    assert_eq!(Game::count_neighbors(&raw_grid(1, &[]), 0, 0), 0);
}

#[test]
fn single_cell_grid_is_dead_after_one_tick() {
    let mut game = game_with(1, &[(0, 0)]);
    assert_eq!(*game.get(Position::new(0, 0)), Cell::Live);
    game.tick();
    assert_eq!(*game.get(Position::new(0, 0)), Cell::Dead);
    game.tick();
    assert_eq!(*game.get(Position::new(0, 0)), Cell::Dead);
}

#[test]
fn live_cell_with_one_neighbour_dies() {
    let mut game = game_with(10, &[(5, 5), (5, 6)]);
    game.tick();
    assert_eq!(live_cells_of(&game, 10), vec![]);
}

#[test]
fn live_cell_with_eight_neighbours_dies() {
    let all: Vec<(usize, usize)> = (4..7).flat_map(|x| (4..7).map(move |y| (x, y))).collect();
    let mut game = game_with(10, &all);
    game.tick();
    assert_eq!(*game.get(Position::new(5, 5)), Cell::Dead);
}

#[test]
fn dead_cell_with_two_or_four_neighbours_stays_dead() {
    let mut two = game_with(10, &[(4, 5), (6, 5)]);
    two.tick();
    assert_eq!(*two.get(Position::new(5, 5)), Cell::Dead);
    let mut four = game_with(10, &[(4, 5), (6, 5), (5, 4), (5, 6)]);
    four.tick();
    assert_eq!(*four.get(Position::new(5, 5)), Cell::Dead);
}

#[test]
fn dead_corner_with_three_live_neighbours_comes_alive() {
    let mut game = game_with(100, &[(0, 1), (1, 0), (1, 1)]);
    game.tick();
    assert_eq!(*game.get(Position::new(0, 0)), Cell::Live);
}

#[test]
fn live_corner_with_three_live_neighbours_survives() {
    let mut game = game_with(100, &[(0, 0), (0, 1), (1, 0), (1, 1)]);
    game.tick();
    assert_eq!(live_cells_of(&game, 100), vec![(0, 0), (0, 1), (1, 0), (1, 1)]);
}

#[test]
fn corner_ignores_the_far_edges() {
    let mut game = game_with(6, &[(5, 0), (5, 1), (0, 5), (1, 5), (5, 5)]);
    game.tick();
    assert_eq!(*game.get(Position::new(0, 0)), Cell::Dead);
    let mut game = game_with(6, &[(0, 0), (5, 0), (5, 1), (0, 5)]);
    game.tick();
    assert_eq!(*game.get(Position::new(0, 0)), Cell::Dead);
}

#[test]
fn every_corner_counts_three_neighbours() {
    let n = 8;
    let corners = [
        ((0, 0), [(0, 1), (1, 0), (1, 1)]),
        ((0, n - 1), [(0, n - 2), (1, n - 1), (1, n - 2)]),
        ((n - 1, 0), [(n - 2, 0), (n - 1, 1), (n - 2, 1)]),
        ((n - 1, n - 1), [(n - 2, n - 1), (n - 1, n - 2), (n - 2, n - 2)]),
    ];
    for (corner, around) in corners {
        let mut game = game_with(n, &around);
        game.tick();
        assert_eq!(*game.get(Position::new(corner.0, corner.1)), Cell::Live);
    }
}

#[test]
fn live_edge_cell_with_five_live_neighbours_dies() {
    let mut game = game_with(7, &[(0, 3), (0, 2), (0, 4), (1, 2), (1, 3), (1, 4)]);
    game.tick();
    assert_eq!(*game.get(Position::new(0, 3)), Cell::Dead);
}

#[test]
fn block_is_a_still_life() {
    let block = [(3, 3), (3, 4), (4, 3), (4, 4)];
    let mut game = game_with(8, &block);
    for _ in 0..4 {
        game.tick();
        assert_eq!(live_cells_of(&game, 8), block.to_vec());
    }
}

#[test]
fn blinker_turns_as_a_whole() {
    let mut game = game_with(5, &[(1, 2), (2, 2), (3, 2)]);
    game.tick();
    assert_eq!(live_cells_of(&game, 5), vec![(2, 1), (2, 2), (2, 3)]);
    game.tick();
    assert_eq!(live_cells_of(&game, 5), vec![(1, 2), (2, 2), (3, 2)]);
}

#[test]
fn two_cells_that_keep_each_other_alive_see_the_old_generation() {
    let mut game = game_with(6, &[(2, 2), (2, 3), (3, 2)]);
    game.tick();
    assert_eq!(live_cells_of(&game, 6), vec![(2, 2), (2, 3), (3, 2), (3, 3)]);
    let mut pair = game_with(6, &[(2, 2), (2, 3)]);
    pair.tick();
    assert_eq!(live_cells_of(&pair, 6), vec![]);
}

#[test]
fn glider_moves_one_cell_diagonally_in_four_generations() {
    let mut game = game_with(10, &[(1, 2), (2, 3), (3, 1), (3, 2), (3, 3)]);
    for _ in 0..4 {
        game.tick();
    }
    assert_eq!(live_cells_of(&game, 10), vec![(2, 3), (3, 4), (4, 2), (4, 3), (4, 4)]);
}

#[test]
fn blinker_at_the_edge_is_cut_off() {
    let mut game = game_with(5, &[(0, 1), (0, 2), (0, 3)]);
    game.tick();
    assert_eq!(live_cells_of(&game, 5), vec![(0, 2), (1, 2)]);
    game.tick();
    assert_eq!(live_cells_of(&game, 5), vec![]);
}

#[test]
fn tick_gives_the_same_grid_from_the_same_start() {
    let start = [(1, 2), (2, 3), (3, 1), (3, 2), (3, 3), (7, 7), (7, 8), (8, 7), (0, 0), (9, 9)];
    let mut a = game_with(10, &start);
    let mut b = game_with(10, &start);
    for _ in 0..6 {
        a.tick();
        b.tick();
        assert_eq!(cells_of(&a, 10), cells_of(&b, 10));
    }
}

#[test]
fn tick_keeps_the_size() {
    let mut game = game_with(3, &[(0, 0), (2, 2)]);
    game.tick();
    assert_eq!(cells_of(&game, 3), vec![vec![Cell::Dead; 3]; 3]);
}

#[test]
fn random_start_holds_no_more_live_cells_than_were_drawn() {
    let mut rng = rand::rng();
    let game = initialize_game(&mut rng, Size(50), 500);
    let live = live_cells_of(&game, 50).len();
    assert!(live >= 1);
    assert!(live <= 500);
}

#[test]
fn random_start_without_draws_is_all_dead() {
    let mut rng = rand::rng();
    let game = initialize_game(&mut rng, Size(9), 0);
    assert_eq!(live_cells_of(&game, 9), vec![]);
}

#[test]
fn random_start_on_a_single_cell_grid() {
    let mut rng = rand::rng();
    let game = initialize_game(&mut rng, Size(1), 3);
    assert_eq!(*game.get(Position::new(0, 0)), Cell::Live);
}

#[test]
fn random_start_stays_inside_a_small_grid() {
    let mut rng = rand::rng();
    for _ in 0..20 {
        let game = initialize_game(&mut rng, Size(2), 40);
        let live = live_cells_of(&game, 2).len();
        assert!(live >= 1 && live <= 4);
    }
}

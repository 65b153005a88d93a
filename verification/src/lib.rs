//! Conway's Game of Life on a finite square grid with clamped edges.

pub mod cell;
pub mod game;
pub mod grid;
pub mod laws;
pub mod position;
pub mod seed;

pub use crate::cell::Cell;
pub use crate::game::Game;
pub use crate::position::{Position, Size};

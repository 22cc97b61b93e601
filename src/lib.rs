//! Conway's Game of Life on a bounded (non-wrapping) rectangular grid.

pub mod game_context;
pub mod frame;
pub mod laws;

pub use game_context::{CellState, GameContext};

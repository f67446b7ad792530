//! Conway's Game of Life on a finite grid with a hard (non-wrapping) boundary.

pub mod grid;
pub mod laws;
pub mod render;

pub use grid::{init_cells, update_cells, Board};

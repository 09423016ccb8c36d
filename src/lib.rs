//! Conway's Game of Life on a toroidal grid: the grid and its transition rule,
//! a controller that seeds, advances and edits it, and a list of drawing
//! instructions for whatever surface shows it.

pub mod grid;
pub mod patterns;
pub mod render;
pub mod universe;

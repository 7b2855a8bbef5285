//! Conway's Game of Life on a fixed-size rectangular grid.
//!
//! The grid is a rectangle of boolean cells; one generation step applies the
//! standard birth/survival rule synchronously over the whole grid, with a hard
//! boundary (cells outside the grid are dead, no wrap-around). The library
//! also renders a grid to the two-character alphabet `{'.', '#'}`, parses seed
//! lines written in that alphabet, and detects the fixed point at which a
//! simulation stops.

pub mod engine;
pub mod game;
pub mod grid;
pub mod seed;
pub mod text;

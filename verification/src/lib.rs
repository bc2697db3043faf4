//! A terminal Game of Life: a toroidal boolean grid, the B3/S23 transition
//! rule, a cursor-driven editor, and a renderer with two display densities.
//! Terminal I/O itself lives outside this crate; everything here works on
//! plain values and is verified.

pub mod model;
pub mod game;
pub mod render;
pub mod laws;

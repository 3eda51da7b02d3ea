//! Conway's Game of Life: cells, a bounded grid, transition rules and the
//! synchronous generation update.
pub mod cell;
pub mod errors;
pub mod grid;
pub mod rule;
pub mod rules;
pub mod vec2;
pub mod world;

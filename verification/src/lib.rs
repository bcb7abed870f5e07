//! A Conway's Game of Life engine on a fixed-size toroidal grid.
//!
//! The engine owns one generation of cells and advances it one step per
//! call, using the classic birth/survival rule with wrap-around
//! (toroidal) neighbor lookups.

pub mod universe;
pub mod laws;

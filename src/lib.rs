//! Conway's Game of Life on a bounded grid: coordinate mapping, neighbour
//! enumeration, the B3/S23 step, seeding and frame pacing, with proofs.

pub mod grid;
pub mod life;
pub mod config;
pub mod board;
pub mod laws;
pub mod pacing;

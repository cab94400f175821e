//! Simulation core of a falling-block puzzle game: piece geometry, the board,
//! scoring, and the engine that moves, rotates, lands and clears.

pub mod board;
pub mod game;
pub mod input;
pub mod piece;
pub mod scoring;

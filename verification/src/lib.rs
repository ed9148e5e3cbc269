//! A two-player grid game with wall cells: the board and its rules, the
//! agents that choose moves, and the supervision of a timed move.

pub mod player;
pub mod error;
pub mod board;
pub mod grid;
pub mod census;
pub mod laws;
pub mod color;
pub mod paint;
pub mod agents;
pub mod solution;
pub mod supervisor;
pub mod game;
mod random;

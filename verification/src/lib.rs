//! Simulation core of a falling-block puzzle game.
//!
//! The crate owns the playing-field state, the active piece's geometry and
//! motion, the piece-supply randomizer, and the rules for placement,
//! collision and line clearing. Rendering and input handling live outside;
//! the core only exposes command and query operations.

pub mod engine;
pub mod geometry;
pub mod matrix;
pub mod piece;
mod rng;


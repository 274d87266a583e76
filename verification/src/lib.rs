//! Simulation engine of a terminal snake game.
//!
//! The engine owns the game state and decides every transition: menu,
//! steering, the per-tick update of snake and collectables, and the ranking
//! of scores. Drawing, reading keys and storing scores are left to the
//! program around it, which hands in plain events and reads the state back.
//!
//! Positions are counted in half cells on both axes, so that the half-cell
//! vertical step and the full-cell horizontal step are both whole numbers.

pub mod game;
pub mod laws;
pub mod model;
pub mod utils;

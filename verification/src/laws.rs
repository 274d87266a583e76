//! Laws of the game: what follows, for every state, from the contracts of
//! the engine. Each is proved from the model of the state alone.

pub mod apples;
pub mod boosts;
pub mod growth;
pub mod levels;
pub mod pass;
pub mod screens;
pub mod shape;
pub mod steering;
pub mod update;

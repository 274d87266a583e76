//! Building blocks of the engine: plain enums, geometry, collectables,
//! score ranking and the source of random numbers.

pub mod collectables;
pub mod enums;
pub mod geometry;
pub mod helpers;
pub mod random;
pub mod scores;

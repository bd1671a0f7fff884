//! Simulation core of a ball-fusion puzzle: tiers, spawning, radial gravity,
//! fusion of equal balls, scoring and the end-of-round state machine.
pub mod tier;
pub mod score;
pub mod planet;
pub mod cursor;
pub mod game;
pub mod fusion;
pub mod game_over;

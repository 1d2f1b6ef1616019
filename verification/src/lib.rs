//! Prey and predators on a grid whose edges meet.
//!
//! Every site of the grid holds one animal or none. In a step of the
//! simulation each predator, then each prey, has its turn: it may die, hunt,
//! have young, or move to a site beside it, as its rates and chance decide.
//!
//! Chance comes from `rand`, the nearest prey from a k-d tree of `kd_tree`;
//! what an animal does with a given draw is decided here, and proved. A rate
//! is a whole number out of `random::PROBABILITY_SCALE`, so that no floating
//! point is needed to compare a draw with it.
//!
//! - `geometry`: coordinates, indices, and the eight sites around a site.
//! - `cell`, `grid`: the sites and the grid that owns them.
//! - `census`: where the animals of each kind are.
//! - `individual`: the rules of prey and of predators.
//! - `nearest`, `random`: the calls into `kd_tree` and `rand`.
//! - `simulation`: the world, its seeding and its step.
//! - `filters`: facts on filtered sequences that the proofs share.

pub mod cell;
pub mod census;
pub mod filters;
pub mod geometry;
pub mod grid;
pub mod individual;
pub mod nearest;
pub mod random;
pub mod simulation;

//! Procedural level generation for a tile-based puzzle game: room-based
//! wall carving, neighbour-pattern wall classification, noise-driven
//! foliage placement and collision-aware player spawning, together with the
//! game's high-score table and window-configuration defaults. Randomness
//! comes from a seeded PCG generator and noise values arrive pre-thresholded,
//! so one seed and one noise grid determine one level.

pub mod classify;
pub mod config;
pub mod errors;
pub mod foliage;
pub mod generator;
pub mod grid;
pub mod high_scores;
pub mod level_map;
pub mod rng;
pub mod spawn;
pub mod sprites;

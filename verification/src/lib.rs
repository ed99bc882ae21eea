//! Deterministic locators for seed-derived world features.
//!
//! Given a 64-bit world seed, the library reproduces the placement rules of a
//! fixed world generator: a region/grid-jitter algorithm for uniquely spaced
//! structures, a quadrant algorithm for a pair of mutually exclusive rare
//! structures, and a heuristic multi-noise biome classifier with a
//! nearest-match search built on top of it.  Every quantity is computed in
//! exact integer arithmetic; noise values are carried as integer numerators
//! at fixed multiples of the `i32::MAX` scale.

pub mod arith;
pub mod biome;
pub mod rng;
pub mod structures;

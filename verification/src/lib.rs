//! A bit-exact model of the 48-bit linear congruential generator used by
//! Java's `Random`, together with the seed-mixing scheme a voxel-world
//! generator builds on it to derive per-chunk and per-feature seeds.
//!
//! The crate exists so seed-search and seed-recovery tools can replay the
//! generator forward to predict outputs, or step it backward (with a
//! caller-supplied modular inverse multiplier) to recover an earlier state.

pub mod chunk_random;
pub mod java_random;

//! Keyed 64-bit message tags: SipHash with a caller-chosen number of
//! compression and finalization rounds.

pub mod hasher;
pub mod laws;
pub mod model;
pub mod permutation;
pub mod words;

pub use hasher::{hash_with_rounds, round_count, siphash13, siphash24, HashError, SipHasher};

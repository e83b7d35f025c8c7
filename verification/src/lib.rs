//! A Mersenne Twister (MT19937) pseudo-random number generator, with
//! operations that map its raw 32-bit draws onto ranges, bytes, characters,
//! strings, shuffles, samples and weighted choices.
//!
//! [`state`] holds the mathematical model, [`random`] the generator itself,
//! [`mapping`] and [`selection`] what the derived operations compute, and
//! [`laws`] what holds of every seed and every number of draws.
//!
//! Every derived operation takes its randomness from the generator's own raw
//! draws, so that a seed fixes all that follows; only `Random::new` asks the
//! `rand` crate for a seed. Ranges are mapped by a plain modulo, which favours
//! small values slightly where the size of the range does not divide 2^32.
//! The generator is deterministic and its state can be recovered from its
//! output: it is not fit for cryptographic use.

pub mod error;
pub mod laws;
pub mod mapping;
pub mod mersenne_twister;
mod outside;
pub mod random;
pub mod selection;
pub mod state;
pub mod text;

pub use error::{ArgumentError, VrdError};
pub use mersenne_twister::MersenneTwisterConfig;

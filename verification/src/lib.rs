//! A generational genetic-algorithm engine.
//!
//! The engine evolves a fixed-size population of individuals through
//! selection, crossover, mutation, re-evaluation and elitism, generation
//! after generation, until a caller-supplied stop condition holds.

pub mod coding;
pub mod crossover;
pub mod evolution;
pub mod evolution_builder;
pub mod experiment_runner;
pub mod fitness;
pub mod metrics;
pub mod mutation;
pub mod parallel;
pub mod population;
pub mod rng;
pub mod selection;
pub mod utils;

use vstd::prelude::*;

verus! {

/// Probabilities are expressed in ten-thousandths: a rate of `RATE_ONE`
/// means "always", a rate of 0 means "never".
pub const RATE_ONE: u32 = 10000;

} // verus!

//! A crossover that leaves the mating pool unchanged.

use vstd::prelude::*;

use crate::crossover::Crossover;
use crate::population::Individual;

verus! {

/// Performs no recombination at all.
#[derive(Clone)]
pub struct DoNothingCrossover;

impl<T: Individual> Crossover<T> for DoNothingCrossover {
    open spec fn pair_ok(&self, p1: T, p2: T, c1: T, c2: T) -> bool {
        c1 == p1 && c2 == p2
    }

    fn crossover(&self, population: &mut Vec<T>) {
    }
}

} // verus!

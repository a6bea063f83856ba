//! The fitness contract: a caller-supplied scoring of genomes.

use vstd::prelude::*;

use crate::population::Individual;

verus! {

/// Scores an individual.  The score is a pure function of the genome, so
/// re-evaluating an unchanged individual always returns the same value;
/// higher scores are better throughout the engine.
pub trait Fitness<T: Individual>: Sized {
    /// The score this operator assigns to a genome.  Implementations
    /// define it; an unspecified scoring promises nothing.
    open spec fn fitness_spec(&self, genome: Seq<T::Gene>) -> i64 {
        vstd::pervasive::arbitrary()
    }

    /// Computes the score of `individual`'s genome.
    fn calculate_fitness(&self, individual: &T) -> (r: i64)
        ensures
            r == self.fitness_spec(individual.genome()),
    ;
}

} // verus!

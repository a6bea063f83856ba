//! Decoding a genome into a domain value, used only to present results.

use vstd::prelude::*;

use crate::population::Individual;

verus! {

/// Maps an individual to a domain-specific value.  Decoding is consulted
/// only when results are read back, never during the generational loop.
pub trait Coding<T: Individual>: Sized {
    type Output;

    /// The domain value this coding assigns to a genome.  Implementations
    /// define it; an unspecified coding promises nothing.
    open spec fn decode_spec(&self, genome: Seq<T::Gene>) -> Self::Output {
        vstd::pervasive::arbitrary()
    }

    /// Computes the domain value of `individual`'s genome.
    fn decode(&self, individual: &T) -> (r: Self::Output)
        ensures
            r == self.decode_spec(individual.genome()),
    ;
}

} // verus!

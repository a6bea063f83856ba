//! Swap mutation: each locus has the mutation probability of being
//! exchanged with a random other locus.

use vstd::prelude::*;

use crate::mutation::{swap_loci_of_all, Mutation};
use crate::population::Individual;

verus! {

/// Exchanges pairs of loci at random; the multiset of genes of every
/// member is preserved, so a permutation stays a permutation.
#[derive(Clone)]
pub struct SwapMutation {
    /// The per-locus probability of a swap, in ten-thousandths.
    pub mutation_rate: u32,
}

impl SwapMutation {
    pub fn new(mutation_rate: u32) -> (r: Self)
        ensures
            r.mutation_rate == mutation_rate,
    {
        Self { mutation_rate }
    }
}

impl Default for SwapMutation {
    /// Swaps one locus in twenty.
    fn default() -> (r: Self)
        ensures
            r.mutation_rate == 500,
    {
        SwapMutation { mutation_rate: 500 }
    }
}

impl<T: Individual> Mutation<T> for SwapMutation {
    open spec fn mutated_ok(&self, pre: T, post: T) -> bool {
        post.genome().to_multiset() == pre.genome().to_multiset()
    }

    fn mutate(&self, population: &mut Vec<T>) {
        swap_loci_of_all(population, self.mutation_rate);
        proof {
            assert forall|i: int| 0 <= i < population@.len() implies self.mutated_ok(
                old(population)@[i],
                population@[i],
            ) by {
                assert(population@[i].genome().to_multiset() == old(population)@[i].genome().to_multiset());
            }
        }
    }
}

} // verus!

//! Bit-swap mutation for bit strings: each gene has the mutation
//! probability of being negated.

use vstd::prelude::*;

use crate::mutation::bit_flip_mutation::{all_genes_negated, flip_bits};
use crate::mutation::Mutation;
use crate::population::{Bin, Individual};

verus! {

/// Negates each gene independently with probability `mutation_rate`
/// (in ten-thousandths).
#[derive(Clone)]
pub struct BitSwapMutation {
    /// The per-gene probability of negating, in ten-thousandths.
    pub mutation_rate: u32,
}

impl Default for BitSwapMutation {
    /// Negates one gene in twenty.
    fn default() -> (r: Self)
        ensures
            r.mutation_rate == 500,
    {
        BitSwapMutation { mutation_rate: 500 }
    }
}

impl Mutation<Bin> for BitSwapMutation {
    open spec fn mutated_ok(&self, pre: Bin, post: Bin) -> bool {
        &&& post.genome().len() == pre.genome().len()
        &&& self.mutation_rate >= crate::RATE_ONE ==> all_genes_negated(pre, post)
    }

    fn mutate(&self, population: &mut Vec<Bin>) {
        flip_bits(population, self.mutation_rate);
        proof {
            assert forall|i2: int| 0 <= i2 < population@.len() implies self.mutated_ok(
                old(population)@[i2],
                population@[i2],
            ) by {
                assert(population@[i2].genome().len() == old(population)@[i2].genome().len());
                if self.mutation_rate >= crate::RATE_ONE {
                    assert(all_genes_negated(old(population)@[i2], population@[i2]));
                }
            }
        }
    }
}

} // verus!

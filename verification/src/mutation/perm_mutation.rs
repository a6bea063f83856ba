//! Swap mutation for permutation genomes.

use vstd::prelude::*;

use crate::mutation::{swap_loci_of_all, Mutation};
use crate::population::{is_permutation, lemma_permutation_from_multiset, Individual, IntPerm};

verus! {

/// Exchanges pairs of loci of a permutation at random; the genome stays
/// a permutation of the same values.
#[derive(Clone)]
pub struct PermMutation {
    /// The per-locus probability of a swap, in ten-thousandths.
    pub mutation_rate: u32,
}

impl PermMutation {
    pub fn new(mutation_rate: u32) -> (r: Self)
        ensures
            r.mutation_rate == mutation_rate,
    {
        PermMutation { mutation_rate }
    }
}

impl Default for PermMutation {
    /// Swaps one locus in twenty.
    fn default() -> (r: Self)
        ensures
            r.mutation_rate == 500,
    {
        PermMutation { mutation_rate: 500 }
    }
}

/// Reordering a permutation's genes leaves it a permutation: the law that
/// every multiset-preserving mutation keeps permutation validity.
pub proof fn lemma_perm_mutation_keeps_permutation(pre: IntPerm, post: IntPerm, n: nat)
    requires
        is_permutation(pre.genome(), n),
        post.genome().to_multiset() == pre.genome().to_multiset(),
    ensures
        is_permutation(post.genome(), n),
{
    lemma_permutation_from_multiset(pre.genome(), post.genome(), n);
}

impl Mutation<IntPerm> for PermMutation {
    open spec fn mutated_ok(&self, pre: IntPerm, post: IntPerm) -> bool {
        post.genome().to_multiset() == pre.genome().to_multiset()
    }

    fn mutate(&self, population: &mut Vec<IntPerm>) {
        swap_loci_of_all(population, self.mutation_rate);
        proof {
            assert forall|i: int| 0 <= i < population@.len() implies self.mutated_ok(
                old(population)@[i],
                population@[i],
            ) by {
                assert(population@[i].genome().to_multiset() == old(population)@[i].genome().to_multiset());
            }
        }
    }
}

} // verus!

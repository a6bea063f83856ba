//! Bit-flip mutation for bit strings.

use vstd::prelude::*;

use crate::mutation::Mutation;
use crate::population::{Bin, Individual};
use crate::rng::coin;

verus! {

/// Negates each gene independently with probability `mutation_rate`
/// (in ten-thousandths).
#[derive(Clone)]
pub struct BitFlipMutation {
    /// The per-gene probability of flipping, in ten-thousandths.
    pub mutation_rate: u32,
}

impl Default for BitFlipMutation {
    /// Flips one gene in twenty.
    fn default() -> (r: Self)
        ensures
            r.mutation_rate == 500,
    {
        BitFlipMutation { mutation_rate: 500 }
    }
}

/// Every gene of `post` is the negation of `pre`'s gene at that locus.
pub open spec fn all_genes_negated(pre: Bin, post: Bin) -> bool {
    forall|j: int| 0 <= j < post.genome().len() ==> #[trigger] post.genome()[j] == !pre.genome()[j]
}

/// Negates each gene of each member with probability `rate`; the genome
/// length and the cached fitness of every member are untouched, and at
/// the full rate every gene is negated.
pub fn flip_bits(population: &mut Vec<Bin>, rate: u32)
    ensures
        final(population)@.len() == old(population)@.len(),
        forall|i: int|
            0 <= i < final(population)@.len() ==> #[trigger] final(population)@[i].genome().len()
                == old(population)@[i].genome().len() && final(population)@[i].fitness_of() == old(
                population,
            )@[i].fitness_of(),
        rate >= crate::RATE_ONE ==> forall|i: int|
            0 <= i < final(population)@.len() ==> all_genes_negated(
                old(population)@[i],
                #[trigger] final(population)@[i],
            ),
{
    let ghost pre = population@;
    let n = population.len();
    let mut i: usize = 0;
    while i < n
        invariant
            population@.len() == n as nat,
            population@.len() == pre.len(),
            forall|p: int|
                0 <= p < pre.len() ==> #[trigger] population@[p].genome().len()
                    == pre[p].genome().len() && population@[p].fitness_of()
                    == pre[p].fitness_of(),
            rate >= crate::RATE_ONE ==> forall|p: int|
                0 <= p < i ==> all_genes_negated(pre[p], #[trigger] population@[p]),
            forall|p: int| i <= p < pre.len() ==> #[trigger] population@[p] == pre[p],
        decreases n - i,
    {
        proof {
            assert(population@[i as int].genome().len() == pre[i as int].genome().len());
            assert(population@[i as int] == pre[i as int]);
        }
        let member = &mut population[i];
        let len = member.chromosome.len();
        let mut j: usize = 0;
        while j < len
            invariant
                0 <= i < pre.len(),
                member.chromosome@.len() == len as nat,
                len as nat == pre[i as int].genome().len(),
                member.fitness == pre[i as int].fitness_of(),
                rate >= crate::RATE_ONE ==> forall|j2: int|
                    0 <= j2 < j ==> #[trigger] member.chromosome@[j2]
                        == !pre[i as int].genome()[j2],
                forall|j2: int|
                    j <= j2 < len ==> #[trigger] member.chromosome@[j2]
                        == pre[i as int].genome()[j2],
            decreases len - j,
        {
            if coin(rate) {
                let flipped = !member.chromosome[j];
                member.chromosome.set(j, flipped);
            }
            j = j + 1;
        }
        proof {
            if rate >= crate::RATE_ONE {
                assert(all_genes_negated(pre[i as int], *member));
            }
        }
        i = i + 1;
    }
}

impl Mutation<Bin> for BitFlipMutation {
    open spec fn mutated_ok(&self, pre: Bin, post: Bin) -> bool {
        &&& post.genome().len() == pre.genome().len()
        &&& self.mutation_rate >= crate::RATE_ONE ==> all_genes_negated(pre, post)
    }

    fn mutate(&self, population: &mut Vec<Bin>) {
        flip_bits(population, self.mutation_rate);
        proof {
            assert forall|i2: int| 0 <= i2 < population@.len() implies self.mutated_ok(
                old(population)@[i2],
                population@[i2],
            ) by {
                assert(population@[i2].genome().len() == old(population)@[i2].genome().len());
                if self.mutation_rate >= crate::RATE_ONE {
                    assert(all_genes_negated(old(population)@[i2], population@[i2]));
                }
            }
        }
    }
}

} // verus!

//! Insertion mutation: a gene is removed from one locus and re-inserted
//! at another, shifting the genes between them.

use vstd::prelude::*;

use crate::mutation::{lemma_remove_insert_multiset, Mutation};
use crate::population::{Individual, IntPerm};
use crate::rng::{coin, rand_index};

verus! {

/// With the mutation probability per member, removes a random gene and
/// re-inserts it at another random locus; the multiset of genes is kept.
#[derive(Clone, Debug)]
pub struct InsertionMutation {
    /// The per-member probability of an insertion, in ten-thousandths.
    pub mutation_rate: u32,
}

impl Default for InsertionMutation {
    /// Moves a gene in one member in twenty.
    fn default() -> (r: Self)
        ensures
            r.mutation_rate == 500,
    {
        Self { mutation_rate: 500 }
    }
}

impl InsertionMutation {
    /// Removes the gene at `from` and inserts it back at `to`.
    pub fn insert(chromosome: &mut Vec<i64>, from: usize, to: usize)
        requires
            from < old(chromosome)@.len(),
            to <= old(chromosome)@.len() - 1,
        ensures
            final(chromosome)@ == old(chromosome)@.remove(from as int).insert(
                to as int,
                old(chromosome)@[from as int],
            ),
            final(chromosome)@.to_multiset() == old(chromosome)@.to_multiset(),
            final(chromosome)@.len() == old(chromosome)@.len(),
    {
        let gene = chromosome.remove(from);
        chromosome.insert(to, gene);
        proof {
            lemma_remove_insert_multiset(old(chromosome)@, from as int, to as int);
            broadcast use vstd::seq_lib::group_to_multiset_ensures;

            assert(chromosome@.len() == chromosome@.to_multiset().len());
            assert(old(chromosome)@.len() == old(chromosome)@.to_multiset().len());
        }
    }
}

impl Mutation<IntPerm> for InsertionMutation {
    open spec fn mutated_ok(&self, pre: IntPerm, post: IntPerm) -> bool {
        post.genome().to_multiset() == pre.genome().to_multiset()
    }

    fn mutate(&self, population: &mut Vec<IntPerm>) {
        let ghost pre = population@;
        let n = population.len();
        let mut i: usize = 0;
        while i < n
            invariant
                population@.len() == n as nat,
                population@.len() == pre.len(),
                forall|p: int|
                    0 <= p < pre.len() ==> #[trigger] population@[p].genome().to_multiset()
                        == pre[p].genome().to_multiset() && population@[p].genome().len()
                        == pre[p].genome().len() && population@[p].fitness_of()
                        == pre[p].fitness_of(),
            decreases n - i,
        {
            proof {
                assert(population@[i as int].genome().to_multiset()
                    == pre[i as int].genome().to_multiset());
                assert(population@[i as int].genome().len() == pre[i as int].genome().len());
                assert(population@[i as int].fitness_of() == pre[i as int].fitness_of());
            }
            if coin(self.mutation_rate) {
                let len = population[i].chromosome.len();
                if len >= 1 {
                    let from = rand_index(len);
                    let to = rand_index(len);
                    if from != to {
                        let member = &mut population[i];
                        Self::insert(&mut member.chromosome, from, to);
                        proof {
                            assert(member.genome().to_multiset()
                                == pre[i as int].genome().to_multiset());
                            assert(member.genome().len() == pre[i as int].genome().len());
                            assert(member.fitness_of() == pre[i as int].fitness_of());
                        }
                    }
                }
            }
            proof {
                assert(population@[i as int].genome().to_multiset() == pre[i as int].genome().to_multiset());
                assert(population@[i as int].genome().len() == pre[i as int].genome().len());
                assert(population@[i as int].fitness_of() == pre[i as int].fitness_of());
            }
            i = i + 1;
        }
        proof {
            assert forall|i2: int| 0 <= i2 < population@.len() implies (population@[i2].genome().len() == old(population)@[i2].genome().len() && population@[i2].fitness_of() == old(population)@[i2].fitness_of() && self.mutated_ok(old(population)@[i2], population@[i2])) by {
                assert(population@[i2].genome().to_multiset() == pre[i2].genome().to_multiset());
                assert(population@[i2].genome().len() == pre[i2].genome().len());
                assert(population@[i2].fitness_of() == pre[i2].fitness_of());
            }
        }
    }
}

} // verus!

//! Random-resetting mutation for integer genomes: a gene is replaced by
//! a fresh draw from the individual's configured range.

use vstd::prelude::*;

use crate::mutation::Mutation;
use crate::population::{Individual, Int};
use crate::rng::{coin, rand_i64_between};

verus! {

/// Replaces each gene, with the mutation probability, by a uniform draw
/// from the individual's half-open range `[range.0, range.1)`.
#[derive(Clone)]
pub struct RandomResettingMutation {
    /// The per-gene probability of resetting, in ten-thousandths.
    pub mutation_rate: u32,
}

impl Default for RandomResettingMutation {
    /// Resets one gene in twenty.
    fn default() -> (r: Self)
        ensures
            r.mutation_rate == 500,
    {
        RandomResettingMutation { mutation_rate: 500 }
    }
}

/// Range clamping, as it falls to the integer encoding: a genome whose
/// genes lie within the individual's closed range keeps that property
/// through random resetting, for any random draw.
pub proof fn lemma_random_resetting_stays_in_range(
    op: RandomResettingMutation,
    pre: Int,
    post: Int,
)
    requires
        op.mutated_ok(pre, post),
        forall|j: int|
            0 <= j < pre.genome().len() ==> pre.range.0 <= #[trigger] pre.genome()[j]
                <= pre.range.1,
    ensures
        forall|j: int|
            0 <= j < post.genome().len() ==> pre.range.0 <= #[trigger] post.genome()[j]
                <= pre.range.1,
{
}

impl Mutation<Int> for RandomResettingMutation {
    open spec fn mutated_ok(&self, pre: Int, post: Int) -> bool {
        &&& post.range == pre.range
        &&& post.genome().len() == pre.genome().len()
        &&& forall|j: int|
            0 <= j < post.genome().len() ==> #[trigger] post.genome()[j] == pre.genome()[j] || (
            pre.range.0 <= post.genome()[j] < pre.range.1)
    }

    fn mutate(&self, population: &mut Vec<Int>) {
        let ghost pre = population@;
        let n = population.len();
        let mut i: usize = 0;
        while i < n
            invariant
                population@.len() == n as nat,
                population@.len() == pre.len(),
                forall|p: int|
                    0 <= p < pre.len() ==> #[trigger] population@[p].range == pre[p].range
                        && population@[p].genome().len() == pre[p].genome().len()
                        && population@[p].fitness_of() == pre[p].fitness_of(),
                forall|p: int, j: int|
                    0 <= p < pre.len() && 0 <= j < pre[p].genome().len() ==> #[trigger] population@[p].genome()[j] == pre[p].genome()[j] || (pre[p].range.0
                        <= population@[p].genome()[j] < pre[p].range.1),
            decreases n - i,
        {
            proof {
                assert(population@[i as int].range == pre[i as int].range);
            }
            let member = &mut population[i];
            let len = member.chromosome.len();
            if member.range.0 < member.range.1 {
                let lo = member.range.0;
                let hi = member.range.1;
                let mut j: usize = 0;
                while j < len
                    invariant
                        0 <= i < pre.len(),
                        member.chromosome@.len() == len as nat,
                        len as nat == pre[i as int].genome().len(),
                        member.range == pre[i as int].range,
                        lo == member.range.0,
                        hi == member.range.1,
                        lo < hi,
                        member.fitness == pre[i as int].fitness_of(),
                        forall|q: int|
                            0 <= q < len ==> #[trigger] member.chromosome@[q]
                                == pre[i as int].genome()[q] || (lo <= member.chromosome@[q] < hi),
                    decreases len - j,
                {
                    if coin(self.mutation_rate) {
                        let value = rand_i64_between(lo, hi);
                        member.chromosome.set(j, value);
                    }
                    j = j + 1;
                }
            }
            i = i + 1;
        }
        proof {
            assert forall|i2: int| 0 <= i2 < population@.len() implies (population@[i2].genome().len() == old(population)@[i2].genome().len() && population@[i2].fitness_of() == old(population)@[i2].fitness_of() && self.mutated_ok(old(population)@[i2], population@[i2])) by {
                assert(population@[i2].range == pre[i2].range);
                assert(population@[i2].genome().len() == pre[i2].genome().len());
                assert(population@[i2].fitness_of() == pre[i2].fitness_of());
                assert forall|j: int| 0 <= j < population@[i2].genome().len() implies (#[trigger] population@[i2].genome()[j] == pre[i2].genome()[j] || (pre[i2].range.0 <= population@[i2].genome()[j] < pre[i2].range.1)) by {
                    assert(population@[i2].genome()[j] == pre[i2].genome()[j] || (pre[i2].range.0 <= population@[i2].genome()[j] < pre[i2].range.1));
                }
            }
        }
    }
}

} // verus!

//! Scramble mutation: a random contiguous sub-range of the genome is
//! shuffled in place.

use vstd::prelude::*;

use crate::mutation::Mutation;
use crate::population::Individual;
use crate::rng::{coin, rand_index, shuffle};

verus! {

/// With the mutation probability per member, shuffles a random
/// contiguous sub-range of the genome; the multiset of genes is kept.
#[derive(Clone)]
pub struct ScrambleMutation {
    /// The per-member probability of a scramble, in ten-thousandths.
    pub mutation_rate: u32,
}

impl Default for ScrambleMutation {
    /// Scrambles one member in twenty.
    fn default() -> (r: Self)
        ensures
            r.mutation_rate == 500,
    {
        Self { mutation_rate: 500 }
    }
}

/// Shuffles the genes of `member` on `[from, to]` in place, keeping the
/// multiset of its genes, its genome length and its cached fitness.
fn scramble_range<T: Individual>(member: &mut T, from: usize, to: usize)
    requires
        from <= to < old(member).genome().len(),
        to < usize::MAX,
    ensures
        final(member).genome().to_multiset() == old(member).genome().to_multiset(),
        final(member).genome().len() == old(member).genome().len(),
        final(member).fitness_of() == old(member).fitness_of(),
{
    let ghost orig = member.genome();
    let mut section: Vec<T::Gene> = Vec::new();
    let mut j: usize = from;
    while j <= to
        invariant
            from <= j <= to + 1,
            to < usize::MAX,
            to < member.genome().len(),
            member.genome() == orig,
            member.fitness_of() == old(member).fitness_of(),
            section@ == orig.subrange(from as int, j as int),
        decreases to + 1 - j,
    {
        section.push(member.get_gene(j));
        proof {
            assert(section@ =~= orig.subrange(from as int, j + 1int));
        }
        j = j + 1;
    }
    let ghost extracted = section@;
    shuffle(&mut section);
    let ghost shuf = section@;
    let count = section.len();
    proof {
        assert(count as nat == to + 1 - from);
    }
    let mut k: usize = count;
    while k > 0
        invariant
            k <= count,
            count as nat == to + 1 - from,
            shuf.len() == count as nat,
            to < member.genome().len(),
            section@ =~= shuf.take(k as int),
            member.genome().len() == orig.len(),
            member.fitness_of() == old(member).fitness_of(),
            forall|p: int|
                0 <= p < orig.len() && !(from + k <= p < from + count) ==> #[trigger] member.genome()[p] == orig[p],
            forall|p: int|
                from + k <= p < from + count ==> #[trigger] member.genome()[p] == shuf[p - from],
        decreases k,
    {
        k = k - 1;
        let gene = match section.pop() {
            Some(g) => g,
            None => vstd::pervasive::unreached(),
        };
        proof {
            assert(shuf.take(k + 1int).drop_last() =~= shuf.take(k as int));
            assert(gene == shuf.take(k + 1int).last());
            assert(shuf.take(k + 1int).last() == shuf[k as int]);
            assert(section@ =~= shuf.take(k as int));
        }
        member.set_gene(from + k, gene);
    }
    proof {
        broadcast use vstd::seq_lib::group_to_multiset_ensures;

        let lo = from as int;
        let hi = to + 1int;
        let n = orig.len() as int;
        assert(member.genome() =~= orig.subrange(0, lo) + shuf + orig.subrange(hi, n));
        assert(orig =~= orig.subrange(0, lo) + extracted + orig.subrange(hi, n));
        assert(shuf.to_multiset() == extracted.to_multiset());
        vstd::seq_lib::lemma_multiset_commutative(orig.subrange(0, lo), shuf);
        vstd::seq_lib::lemma_multiset_commutative(orig.subrange(0, lo), extracted);
        vstd::seq_lib::lemma_multiset_commutative(
            orig.subrange(0, lo) + shuf,
            orig.subrange(hi, n),
        );
        vstd::seq_lib::lemma_multiset_commutative(
            orig.subrange(0, lo) + extracted,
            orig.subrange(hi, n),
        );
        assert(member.genome().to_multiset() =~= orig.to_multiset());
    }
}

impl<T: Individual> Mutation<T> for ScrambleMutation {
    open spec fn mutated_ok(&self, pre: T, post: T) -> bool {
        post.genome().to_multiset() == pre.genome().to_multiset()
    }

    fn mutate(&self, population: &mut Vec<T>) {
        let ghost pre = population@;
        let n = population.len();
        let mut i: usize = 0;
        while i < n
            invariant
                population@.len() == n as nat,
                population@.len() == pre.len(),
                forall|p: int|
                    0 <= p < pre.len() ==> #[trigger] population@[p].genome().to_multiset()
                        == pre[p].genome().to_multiset() && population@[p].genome().len()
                        == pre[p].genome().len() && population@[p].fitness_of()
                        == pre[p].fitness_of(),
            decreases n - i,
        {
            proof {
                assert(population@[i as int].genome().to_multiset()
                    == pre[i as int].genome().to_multiset());
                assert(population@[i as int].genome().len() == pre[i as int].genome().len());
                assert(population@[i as int].fitness_of() == pre[i as int].fitness_of());
            }
            if coin(self.mutation_rate) {
                let len = population[i].get_chromosome().len();
                if len >= 1 {
                    let from = rand_index(len);
                    let to = from + rand_index(len - from);
                    if from != to {
                        let member = &mut population[i];
                        scramble_range(member, from, to);
                        proof {
                            assert(member.genome().to_multiset()
                                == pre[i as int].genome().to_multiset());
                        }
                    }
                }
            }
            proof {
                assert(population@[i as int].genome().to_multiset() == pre[i as int].genome().to_multiset());
                assert(population@[i as int].genome().len() == pre[i as int].genome().len());
                assert(population@[i as int].fitness_of() == pre[i as int].fitness_of());
            }
            i = i + 1;
        }
        proof {
            assert forall|i2: int| 0 <= i2 < population@.len() implies (population@[i2].genome().len() == old(population)@[i2].genome().len() && population@[i2].fitness_of() == old(population)@[i2].fitness_of() && self.mutated_ok(old(population)@[i2], population@[i2])) by {
                assert(population@[i2].genome().to_multiset() == pre[i2].genome().to_multiset());
                assert(population@[i2].genome().len() == pre[i2].genome().len());
                assert(population@[i2].fitness_of() == pre[i2].fitness_of());
            }
        }
    }
}

} // verus!

//! Mutation: in-place random perturbation of individuals.

mod bit_flip_mutation;
mod bit_swap_mutation;
mod do_nothing_mutation;
mod insertion_mutation;
mod perm_mutation;
mod random_resetting_mutation;
mod scramble_mutation;
mod swap_mutation;

pub use bit_flip_mutation::BitFlipMutation;
pub use bit_swap_mutation::BitSwapMutation;
pub use do_nothing_mutation::DoNothingMutation;
pub use insertion_mutation::InsertionMutation;
pub use perm_mutation::PermMutation;
pub use random_resetting_mutation::RandomResettingMutation;
pub use scramble_mutation::ScrambleMutation;
pub use swap_mutation::SwapMutation;

use vstd::prelude::*;

use crate::population::Individual;

verus! {

/// Exchanges the genes at two loci of every member, locus by locus with
/// the given probability; the multiset of genes of each member is kept.
pub(crate) fn swap_loci_of_all<T: Individual>(population: &mut Vec<T>, rate: u32)
    ensures
        final(population)@.len() == old(population)@.len(),
        forall|i: int|
            0 <= i < final(population)@.len() ==> #[trigger] final(population)@[i].genome().to_multiset() == old(population)@[i].genome().to_multiset() && final(population)@[i].genome().len() == old(population)@[i].genome().len() && final(population)@[i].fitness_of() == old(population)@[i].fitness_of(),
{
    let ghost pre = population@;
    let n = population.len();
    let mut i: usize = 0;
    while i < n
        invariant
            population@.len() == n as nat,
            population@.len() == pre.len(),
            forall|p: int|
                0 <= p < pre.len() ==> #[trigger] population@[p].genome().to_multiset()
                    == pre[p].genome().to_multiset() && population@[p].genome().len()
                    == pre[p].genome().len() && population@[p].fitness_of()
                    == pre[p].fitness_of(),
        decreases n - i,
    {
        proof {
            assert(population@[i as int].genome().to_multiset()
                == pre[i as int].genome().to_multiset());
        }
        let member = &mut population[i];
        let len = member.get_chromosome().len();
        let mut j: usize = 0;
        while j < len
            invariant
                0 <= i < pre.len(),
                member.genome().len() == len as nat,
                member.genome().to_multiset() == pre[i as int].genome().to_multiset(),
                len as nat == pre[i as int].genome().len(),
                member.fitness_of() == pre[i as int].fitness_of(),
            decreases len - j,
        {
            if crate::rng::coin(rate) {
                let swap_with = crate::rng::rand_index(len);
                let ghost before = member.genome();
                let gene_j = member.get_gene(j);
                let gene_w = member.get_gene(swap_with);
                member.set_gene(j, gene_w);
                member.set_gene(swap_with, gene_j);
                proof {
                    crate::population::lemma_swap_multiset(before, j as int, swap_with as int);
                    assert(member.genome() == before.update(j as int, before[swap_with as int]).update(swap_with as int, before[j as int]));
                }
            }
            j = j + 1;
        }
        i = i + 1;
    }
}

/// Removing the gene at `i` and re-inserting it at `to` keeps the
/// multiset of genes.
pub proof fn lemma_remove_insert_multiset<A>(s: Seq<A>, i: int, to: int)
    requires
        0 <= i < s.len(),
        0 <= to <= s.len() - 1,
    ensures
        s.remove(i).insert(to, s[i]).to_multiset() == s.to_multiset(),
{
    broadcast use vstd::seq_lib::group_to_multiset_ensures;

    let removed = s.remove(i);
    assert(removed.to_multiset() == s.to_multiset().remove(s[i]));
    let inserted = removed.insert(to, s[i]);
    assert(inserted =~= removed.subrange(0, to) + seq![s[i]] + removed.subrange(
        to,
        removed.len() as int,
    ));
    assert(removed =~= removed.subrange(0, to) + removed.subrange(to, removed.len() as int));
    vstd::seq_lib::lemma_multiset_commutative(
        removed.subrange(0, to),
        removed.subrange(to, removed.len() as int),
    );
    vstd::seq_lib::lemma_multiset_commutative(
        removed.subrange(0, to) + seq![s[i]],
        removed.subrange(to, removed.len() as int),
    );
    vstd::seq_lib::lemma_multiset_commutative(removed.subrange(0, to), seq![s[i]]);
    assert(seq![s[i]].to_multiset() =~= vstd::multiset::Multiset::<A>::empty().insert(s[i]));
    assert(inserted.to_multiset() =~= removed.to_multiset().insert(s[i]));
    assert(s.to_multiset().contains(s[i]));
    assert(removed.to_multiset().insert(s[i]) =~= s.to_multiset());
}

/// `post` is what `op`'s mutation leaves of the pool `pre`: sizes,
/// genome lengths and cached fitness kept, and each member related to
/// its previous self by `mutated_ok`.
pub open spec fn mutated_pool<T: Individual, M: Mutation<T>>(op: M, pre: Seq<T>, post: Seq<T>) -> bool {
    &&& post.len() == pre.len()
    &&& forall|i: int|
        0 <= i < post.len() ==> #[trigger] post[i].genome().len() == pre[i].genome().len()
            && post[i].fitness_of() == pre[i].fitness_of() && op.mutated_ok(pre[i], post[i])
}

/// Mutates a pool in place, member by member.  Genome lengths and cached
/// fitness values are never altered, and each mutated member relates to
/// its previous self as the operator's `mutated_ok` relation describes.
pub trait Mutation<T: Individual>: Sized {
    /// How a member after mutation relates to the member before it.
    /// Implementations define it; an unspecified operator promises
    /// nothing of the member.
    open spec fn mutated_ok(&self, pre: T, post: T) -> bool {
        vstd::pervasive::arbitrary()
    }

    fn mutate(&self, population: &mut Vec<T>)
        ensures
            final(population)@.len() == old(population)@.len(),
            forall|i: int|
                0 <= i < final(population)@.len() ==> #[trigger] final(population)@[i].genome().len() == old(population)@[i].genome().len() && final(population)@[i].fitness_of() == old(population)@[i].fitness_of() && self.mutated_ok(
                    old(population)@[i],
                    final(population)@[i],
                ),
    ;
}

} // verus!

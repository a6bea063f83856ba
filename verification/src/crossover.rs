//! Crossover: in-place pairwise recombination of a mating pool.

mod cx_crossover;
mod do_nothing_crossover;
mod n_points_crossover;
mod ordered_crossover;
mod ox_crossover;
mod pmx_crossover;
mod uniform_crossover;

pub use cx_crossover::CXCrossover;
pub use do_nothing_crossover::DoNothingCrossover;
pub use n_points_crossover::NPointsCrossover;
pub use ordered_crossover::OrderedCrossover;
pub use ox_crossover::OXCrossover;
pub use pmx_crossover::PMXCrossover;
pub use uniform_crossover::UniformCrossover;

use vstd::prelude::*;

use crate::population::Individual;

verus! {

/// Each position of the children holds either the two parents' genes in
/// place or the two parents' genes exchanged.
pub open spec fn genes_kept_or_swapped<G>(p1: Seq<G>, p2: Seq<G>, c1: Seq<G>, c2: Seq<G>) -> bool {
    &&& p1.len() == p2.len()
    &&& c1.len() == p1.len()
    &&& c2.len() == p2.len()
    &&& forall|i: int|
        #![trigger c1[i]]
        0 <= i < p1.len() ==> (c1[i] == p1[i] && c2[i] == p2[i]) || (c1[i] == p2[i] && c2[i]
            == p1[i])
}

/// `post` is what `op`'s crossover leaves of the pool `pre`: sizes,
/// genome lengths and cached fitness kept, each even/odd pair unchanged
/// or related by `pair_ok`, and an odd-sized pool's last member kept.
pub open spec fn recombined_pool<T: Individual, C: Crossover<T>>(
    op: C,
    pre: Seq<T>,
    post: Seq<T>,
) -> bool {
    &&& post.len() == pre.len()
    &&& forall|i: int|
        0 <= i < post.len() ==> #[trigger] post[i].genome().len() == pre[i].genome().len()
            && post[i].fitness_of() == pre[i].fitness_of()
    &&& forall|i: int|
        #![trigger post[i]]
        0 <= i && i + 1 < pre.len() && i % 2 == 0 ==> ((post[i] == pre[i] && post[i + 1] == pre[i
            + 1]) || op.pair_ok(pre[i], pre[i + 1], post[i], post[i + 1]))
    &&& pre.len() % 2 == 1 ==> post.last() == pre.last()
}

/// Recombines a mating pool in place, pairing the members at even/odd
/// index pairs.  Each pair is recombined with the operator's crossover
/// probability; pairs not drawn are left unchanged, as is the unpaired
/// last member of an odd-sized pool.  Genome lengths and cached fitness
/// values are never altered.
pub trait Crossover<T: Individual>: Sized {
    /// How a recombined pair of children relates to its parents.
    /// Implementations define it; an unspecified operator promises
    /// nothing of the pair.
    open spec fn pair_ok(&self, p1: T, p2: T, c1: T, c2: T) -> bool {
        vstd::pervasive::arbitrary()
    }

    fn crossover(&self, population: &mut Vec<T>)
        ensures
            final(population)@.len() == old(population)@.len(),
            forall|i: int|
                0 <= i < final(population)@.len() ==> #[trigger] final(population)@[i].genome().len() == old(population)@[i].genome().len() && final(population)@[i].fitness_of() == old(population)@[i].fitness_of(),
            forall|i: int|
                #![trigger final(population)@[i]]
                0 <= i && i + 1 < old(population)@.len() && i % 2 == 0 ==> ((final(population)@[i]
                    == old(population)@[i] && final(population)@[i + 1] == old(population)@[i + 1])
                    || self.pair_ok(
                    old(population)@[i],
                    old(population)@[i + 1],
                    final(population)@[i],
                    final(population)@[i + 1],
                )),
            old(population)@.len() % 2 == 1 ==> final(population)@.last() == old(population)@.last(),
    ;
}

} // verus!

//! Selection: resampling a population into a mating pool of the same size.

mod do_nothing_selection;
mod rank_selection;
mod roulette_selection;
mod stochastic_universal_sampling_selection;
mod tournament_selection;

pub use do_nothing_selection::DoNothingSelection;
pub use rank_selection::RankSelection;
pub use roulette_selection::RouletteSelection;
pub use stochastic_universal_sampling_selection::StochasticUniversalSamplingSelection;
pub use tournament_selection::TournamentSelection;

use vstd::prelude::*;

use crate::population::Individual;

verus! {

/// `picked` is a copy of some member of `source`: same genome, same cached
/// fitness.
pub open spec fn drawn_from<T: Individual>(source: Seq<T>, picked: T) -> bool {
    exists|j: int|
        0 <= j < source.len() && picked.genome() == #[trigger] source[j].genome()
            && picked.fitness_of() == source[j].fitness_of()
}

/// `pool` is a mating pool sampled from `source`: same size, every entry
/// a copy of some member.
pub open spec fn sampled_from<T: Individual>(source: Seq<T>, pool: Seq<T>) -> bool {
    &&& pool.len() == source.len()
    &&& forall|i: int| 0 <= i < pool.len() ==> drawn_from(source, #[trigger] pool[i])
}

/// Builds a mating pool by sampling the population.  Every entry of the
/// pool is a copy of some member of the input, and the pool has the same
/// size; the input itself is never changed.
pub trait Selection<T: Individual>: Sized {
    fn get_mating_pool(&self, population: &Vec<T>) -> (r: Vec<T>)
        requires
            population@.len() >= 1,
            population@.len() < 0x1_0000_0000,
        ensures
            r@.len() == population@.len(),
            forall|i: int| 0 <= i < r@.len() ==> drawn_from(population@, #[trigger] r@[i]),
    ;
}

} // verus!

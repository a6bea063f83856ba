//! Data-parallel application of the embarrassingly parallel phases,
//! through rayon's fork-join thread pool.
//!
//! Each wrapper hands rayon a closure that only calls a verified function
//! of this library; the contract states what holds of the collection
//! afterwards, exactly as the sequential loop would establish it.

use vstd::prelude::*;

use crate::fitness::Fitness;
use crate::population::Individual;

verus! {

/// Scores one individual and caches the score in its fitness slot.
pub fn calculate_individual_fitness<T: Individual, F: Fitness<T>>(fitness: &F, individual: &mut T)
    ensures
        final(individual).genome() == old(individual).genome(),
        final(individual).fitness_of() == fitness.fitness_spec(old(individual).genome()),
        forall|d: u32, p: T::Params|
            #[trigger] T::generated_ok(d, p, final(individual)) == T::generated_ok(
                d,
                p,
                old(individual),
            ),
{
    let value = fitness.calculate_fitness(individual);
    individual.set_fitness(value);
}

/// Relies on rayon's `into_par_iter().map(..).collect()` over `0..n`: the
/// result gathers exactly one member per index, each produced by the
/// verified `generate_member`, whose contract gives every clause below.
#[verifier::external_body]
pub fn par_generate_members<T>(n: usize, dimension: u32, params: &T::Params) -> (r: Vec<T>) where
    T: Individual + Send,
    T::Params: Sync,

    requires
        T::params_ok(*params),
    ensures
        r@.len() == n as nat,
        forall|i: int|
            0 <= i < r@.len() ==> #[trigger] r@[i].genome().len() == dimension as nat
                && r@[i].fitness_of() == 0 && T::generated_ok(dimension, *params, &r@[i]),
{
    rayon::iter::ParallelIterator::collect(
        rayon::iter::ParallelIterator::map(
            rayon::iter::IntoParallelIterator::into_par_iter(0..n),
            |_| T::generate_member(dimension, params),
        ),
    )
}

/// Relies on rayon's `par_iter_mut().for_each(..)`: the closure is applied
/// to every member exactly once, and it only calls the verified
/// `calculate_individual_fitness`, whose contract gives every clause
/// below.
#[verifier::external_body]
pub fn par_evaluate<T, F>(population: &mut Vec<T>, fitness: &F) where
    T: Individual + Send,
    F: Fitness<T> + Sync,

    ensures
        final(population)@.len() == old(population)@.len(),
        forall|i: int|
            0 <= i < final(population)@.len() ==> #[trigger] final(population)@[i].genome() == old(population)@[i].genome() && final(population)@[i].fitness_of() == fitness.fitness_spec(
                old(population)@[i].genome(),
            ),
        forall|i: int, d: u32, p: T::Params|
            0 <= i < final(population)@.len() ==> #[trigger] T::generated_ok(
                d,
                p,
                &final(population)@[i],
            ) == T::generated_ok(d, p, &old(population)@[i]),
{
    rayon::iter::ParallelIterator::for_each(
        rayon::iter::IntoParallelRefMutIterator::par_iter_mut(population),
        |individual| calculate_individual_fitness(fitness, individual),
    )
}

} // verus!

//! A selection that copies the population unchanged.

use vstd::prelude::*;

use crate::population::Individual;
use crate::selection::{drawn_from, Selection};

verus! {

/// Returns the population itself as the mating pool.
#[derive(Clone)]
pub struct DoNothingSelection;

/// A member-by-member copy of the population.
pub(crate) fn copy_pool<T: Individual>(population: &Vec<T>) -> (r: Vec<T>)
    ensures
        r@.len() == population@.len(),
        forall|i: int| 0 <= i < r@.len() ==> drawn_from(population@, #[trigger] r@[i]),
{
    let mut pool: Vec<T> = Vec::new();
    let mut i: usize = 0;
    while i < population.len()
        invariant
            i <= population@.len(),
            pool@.len() == i as nat,
            forall|k: int|
                0 <= k < i ==> #[trigger] pool@[k].genome() == population@[k].genome()
                    && pool@[k].fitness_of() == population@[k].fitness_of(),
        decreases population@.len() - i,
    {
        pool.push(population[i].duplicate());
        i = i + 1;
    }
    proof {
        assert forall|i2: int| 0 <= i2 < pool@.len() implies drawn_from(
            population@,
            #[trigger] pool@[i2],
        ) by {
            assert(pool@[i2].genome() == population@[i2].genome());
        }
    }
    pool
}

impl<T: Individual> Selection<T> for DoNothingSelection {
    fn get_mating_pool(&self, population: &Vec<T>) -> (r: Vec<T>) {
        copy_pool(population)
    }
}

} // verus!

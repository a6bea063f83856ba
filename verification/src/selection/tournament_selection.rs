//! Tournament selection: each slot is filled by the winner of a small
//! random tournament.

use vstd::prelude::*;

use crate::population::Individual;
use crate::rng::coin;
use crate::utils::random_distinct_indices;
use crate::selection::{drawn_from, Selection};

verus! {

/// For each slot, draws `k` distinct members at random and picks the
/// fittest of them with probability `kp` (in ten-thousandths), otherwise
/// the runner-up.
#[derive(Clone)]
pub struct TournamentSelection {
    pub k: usize,
    pub kp: u32,
}

impl Default for TournamentSelection {
    /// Tournaments of two, always won by the fitter member.
    fn default() -> (r: Self)
        ensures
            r.k == 2,
            r.kp == crate::RATE_ONE,
    {
        TournamentSelection { k: 2, kp: crate::RATE_ONE }
    }
}

impl TournamentSelection {
    /// Runs one tournament over the population and returns the index of
    /// the member that the tournament selects.
    fn one_tournament<T: Individual>(&self, population: &Vec<T>) -> (r: usize)
        requires
            population@.len() >= 1,
        ensures
            r < population@.len(),
    {
        let entrants = random_distinct_indices(population.len(), if self.k >= 1 {
            self.k
        } else {
            1
        });
        let mut best: usize = entrants[0];
        let mut second: usize = entrants[0];
        let mut t: usize = 1;
        while t < entrants.len()
            invariant
                best < population@.len(),
                second < population@.len(),
                forall|j: int| 0 <= j < entrants@.len() ==> #[trigger] entrants@[j]
                    < population@.len(),
            decreases entrants@.len() - t,
        {
            let candidate = entrants[t];
            if population[candidate].get_fitness() > population[best].get_fitness() {
                second = best;
                best = candidate;
            } else if second == best || population[candidate].get_fitness()
                > population[second].get_fitness() {
                second = candidate;
            }
            t = t + 1;
        }
        if coin(self.kp) {
            best
        } else {
            second
        }
    }
}

impl<T: Individual> Selection<T> for TournamentSelection {
    fn get_mating_pool(&self, population: &Vec<T>) -> (r: Vec<T>) {
        let mut pool: Vec<T> = Vec::new();
        let mut i: usize = 0;
        while i < population.len()
            invariant
                population@.len() >= 1,
                i <= population@.len(),
                pool@.len() == i as nat,
                forall|k2: int| 0 <= k2 < i ==> drawn_from(population@, #[trigger] pool@[k2]),
            decreases population@.len() - i,
        {
            let winner = self.one_tournament(population);
            pool.push(population[winner].duplicate());
            proof {
                assert(pool@.last().genome() == population@[winner as int].genome());
            }
            i = i + 1;
        }
        pool
    }
}

} // verus!

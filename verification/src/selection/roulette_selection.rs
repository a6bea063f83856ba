//! Roulette (fitness-proportional) selection.

use vstd::prelude::*;

use crate::evolution::{seq_fitness_sum, lemma_fitness_sum_bounds};
use crate::population::Individual;
use crate::rng::rand_u128_below;
use crate::selection::do_nothing_selection::copy_pool;
use crate::selection::{drawn_from, Selection};

verus! {

/// Samples each slot independently, each member drawn with probability
/// proportional to its cached fitness.  When a fitness is negative or
/// the total is zero the weighted draw is undefined; the population is
/// then copied unchanged.
#[derive(Clone)]
pub struct RouletteSelection;

/// A prefix of a sequence of non-negative fitness values sums to no more
/// than the whole.
pub(crate) proof fn lemma_prefix_sum_bound<T: Individual>(s: Seq<T>, i: int)
    requires
        0 <= i <= s.len(),
        forall|j: int| 0 <= j < s.len() ==> #[trigger] s[j].fitness_of() >= 0,
    ensures
        0 <= seq_fitness_sum(s.take(i)),
        seq_fitness_sum(s.take(i)) <= seq_fitness_sum(s),
    decreases s.len(),
{
    lemma_prefix_sum_nonneg(s.take(i));
    if i == s.len() {
        assert(s.take(i) =~= s);
    } else {
        assert(s.take(i) =~= s.drop_last().take(i));
        assert(forall|j: int|
            0 <= j < s.drop_last().len() ==> #[trigger] s.drop_last()[j].fitness_of() >= 0);
        lemma_prefix_sum_bound(s.drop_last(), i);
    }
}

/// A sum of non-negative fitness values is non-negative.
pub(crate) proof fn lemma_prefix_sum_nonneg<T: Individual>(s: Seq<T>)
    requires
        forall|j: int| 0 <= j < s.len() ==> #[trigger] s[j].fitness_of() >= 0,
    ensures
        seq_fitness_sum(s) >= 0,
    decreases s.len(),
{
    if s.len() > 0 {
        assert(forall|j: int|
            0 <= j < s.drop_last().len() ==> #[trigger] s.drop_last()[j].fitness_of() >= 0);
        lemma_prefix_sum_nonneg(s.drop_last());
    }
}

/// Picks the index whose cumulative-fitness interval contains a uniform
/// draw below the (positive) total fitness.
pub(crate) fn pick_weighted<T: Individual>(population: &Vec<T>, total: u128) -> (r: usize)
    requires
        population@.len() >= 1,
        forall|j: int| 0 <= j < population@.len() ==> #[trigger] population@[j].fitness_of() >= 0,
        total as int == seq_fitness_sum(population@),
        total >= 1,
    ensures
        r < population@.len(),
{
    let draw = rand_u128_below(total);
    let mut cum: u128 = 0;
    let mut i: usize = 0;
    let n = population.len();
    while i < n
        invariant
            i <= n,
            population@.len() == n as nat,
            forall|j: int| 0 <= j < n ==> #[trigger] population@[j].fitness_of() >= 0,
            total as int == seq_fitness_sum(population@),
            cum as int == seq_fitness_sum(population@.take(i as int)),
            cum <= total,
            draw < total,
            draw >= cum,
        decreases n - i,
    {
        proof {
            assert(population@.take(i + 1int).drop_last() =~= population@.take(i as int));
            assert(population@.take(i + 1int).last() == population@[i as int]);
            lemma_prefix_sum_bound(population@, i + 1int);
        }
        let f = population[i].get_fitness();
        cum = cum + f as u128;
        if draw < cum {
            return i;
        }
        i = i + 1;
    }
    proof {
        assert(population@.take(n as int) =~= population@);
        assert(false);
    }
    0
}

impl<T: Individual> Selection<T> for RouletteSelection {
    fn get_mating_pool(&self, population: &Vec<T>) -> (r: Vec<T>) {
        let n = population.len();
        let mut all_nonneg = true;
        let mut i: usize = 0;
        while i < n
            invariant
                i <= n,
                population@.len() == n as nat,
                all_nonneg ==> forall|j: int|
                    0 <= j < i ==> #[trigger] population@[j].fitness_of() >= 0,
            decreases n - i,
        {
            if population[i].get_fitness() < 0 {
                all_nonneg = false;
            }
            i = i + 1;
        }
        let mut pool: Vec<T> = Vec::new();
        if all_nonneg {
            let total = crate::evolution::fitness_sum(population);
            proof {
                lemma_fitness_sum_bounds(population@);
                lemma_prefix_sum_nonneg(population@);
            }
            if total >= 1 {
                let total_u = total as u128;
                let mut s: usize = 0;
                while s < n
                    invariant
                        s <= n,
                        n >= 1,
                        population@.len() == n as nat,
                        forall|j: int|
                            0 <= j < n ==> #[trigger] population@[j].fitness_of() >= 0,
                        total_u as int == seq_fitness_sum(population@),
                        total_u >= 1,
                        pool@.len() == s as nat,
                        forall|q: int| 0 <= q < s ==> drawn_from(population@, #[trigger] pool@[q]),
                    decreases n - s,
                {
                    let pick = pick_weighted(population, total_u);
                    pool.push(population[pick].duplicate());
                    proof {
                        assert(pool@.last().genome() == population@[pick as int].genome());
                    }
                    s = s + 1;
                }
                return pool;
            }
        }
        copy_pool(population)
    }
}

} // verus!

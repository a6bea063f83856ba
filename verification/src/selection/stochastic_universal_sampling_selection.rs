//! Stochastic universal sampling: one random start point and evenly
//! spaced pointers over the cumulative fitness.

use vstd::prelude::*;

use crate::evolution::{lemma_fitness_sum_bounds, seq_fitness_sum};
use crate::population::Individual;
use crate::rng::rand_u128_below;
use crate::selection::do_nothing_selection::copy_pool;
use crate::selection::{drawn_from, Selection};

verus! {

/// Walks the cumulative fitness once with `population_size` evenly
/// spaced pointers (all arithmetic scaled by the population size, so the
/// spacing stays exact).  When a fitness is negative or the total is
/// zero the sampling is undefined; the population is then copied
/// unchanged.
#[derive(Clone)]
pub struct StochasticUniversalSamplingSelection;

impl<T: Individual> Selection<T> for StochasticUniversalSamplingSelection {
    fn get_mating_pool(&self, population: &Vec<T>) -> (r: Vec<T>) {
        let n = population.len();
        let mut all_nonneg = true;
        let mut i: usize = 0;
        while i < n
            invariant
                i <= n,
                population@.len() == n as nat,
                all_nonneg ==> forall|j: int|
                    0 <= j < i ==> #[trigger] population@[j].fitness_of() >= 0,
            decreases n - i,
        {
            if population[i].get_fitness() < 0 {
                all_nonneg = false;
            }
            i = i + 1;
        }
        if !all_nonneg {
            return copy_pool(population);
        }
        let total = crate::evolution::fitness_sum(population);
        proof {
            lemma_fitness_sum_bounds(population@);
        }
        if total < 1 {
            return copy_pool(population);
        }
        let total_u = total as u128;
        let scale = n as u128;
        let start_point = rand_u128_below(total_u);
        let mut pool: Vec<T> = Vec::new();
        let mut cum_scaled: u128 = 0;
        let mut idx: usize = 0;
        let mut s: usize = 0;
        while s < n
            invariant
                s <= n,
                n >= 1,
                n < 0x1_0000_0000,
                population@.len() == n as nat,
                forall|j: int| 0 <= j < n ==> #[trigger] population@[j].fitness_of() >= 0,
                total_u as int == seq_fitness_sum(population@),
                1 <= total_u,
                total_u <= (n as int) * 0x7fff_ffff_ffff_ffff,
                scale == n as u128,
                start_point < total_u,
                idx <= n,
                cum_scaled as int == (n as int) * seq_fitness_sum(population@.take(idx as int)),
                pool@.len() == s as nat,
                forall|q: int| 0 <= q < s ==> drawn_from(population@, #[trigger] pool@[q]),
            decreases n - s,
        {
            proof {
                assert((s as int) * (total_u as int) <= (n as int) * (total_u as int))
                    by (nonlinear_arith)
                    requires
                        0 <= s as int <= n as int,
                        total_u >= 0,
                ;
                assert((n as int) * (total_u as int) <= (n as int) * ((n as int)
                    * 0x7fff_ffff_ffff_ffff)) by (nonlinear_arith)
                    requires
                        total_u as int <= (n as int) * 0x7fff_ffff_ffff_ffff,
                        n as int >= 0,
                ;
                assert((n as int) * ((n as int) * 0x7fff_ffff_ffff_ffff) < 0x8000_0000_0000_0000_0000_0000_0000_0000) by (nonlinear_arith)
                    requires
                        0 <= (n as int) < 0x1_0000_0000,
                ;
            }
            let pointer = start_point + (s as u128) * total_u;
            while cum_scaled < pointer && idx < n
                invariant
                    idx <= n,
                    n < 0x1_0000_0000,
                    population@.len() == n as nat,
                    forall|j: int| 0 <= j < n ==> #[trigger] population@[j].fitness_of() >= 0,
                    total_u as int == seq_fitness_sum(population@),
                    total_u <= (n as int) * 0x7fff_ffff_ffff_ffff,
                    scale == n as u128,
                    cum_scaled as int == (n as int) * seq_fitness_sum(
                        population@.take(idx as int),
                    ),
                decreases n - idx,
            {
                proof {
                    assert(population@.take(idx + 1int).drop_last() =~= population@.take(
                        idx as int,
                    ));
                    assert(population@.take(idx + 1int).last() == population@[idx as int]);
                    crate::selection::roulette_selection::lemma_prefix_sum_bound(
                        population@,
                        idx + 1int,
                    );
                    assert((n as int) * seq_fitness_sum(population@.take(idx + 1int)) <= (
                    n as int) * (total_u as int)) by (nonlinear_arith)
                        requires
                            seq_fitness_sum(population@.take(idx + 1int)) <= total_u as int,
                            n as int >= 0,
                    ;
                    assert((n as int) * (total_u as int) <= (n as int) * ((n as int)
                        * 0x7fff_ffff_ffff_ffff)) by (nonlinear_arith)
                        requires
                            total_u as int <= (n as int) * 0x7fff_ffff_ffff_ffff,
                            n as int >= 0,
                    ;
                    assert((n as int) * ((n as int) * 0x7fff_ffff_ffff_ffff) < 0x8000_0000_0000_0000_0000_0000_0000_0000) by (nonlinear_arith)
                        requires
                            0 <= (n as int) < 0x1_0000_0000,
                    ;
                    assert((n as int) * (seq_fitness_sum(population@.take(idx as int))
                        + population@[idx as int].fitness_of()) == (n as int) * seq_fitness_sum(
                        population@.take(idx as int),
                    ) + (n as int) * population@[idx as int].fitness_of()) by (nonlinear_arith);
                    assert((n as int) * population@[idx as int].fitness_of() >= 0)
                        by (nonlinear_arith)
                        requires
                            population@[idx as int].fitness_of() >= 0,
                            n as int >= 0,
                    ;
                    assert((n as int) * population@[idx as int].fitness_of() <= (n as int)
                        * 0x7fff_ffff_ffff_ffff) by (nonlinear_arith)
                        requires
                            population@[idx as int].fitness_of() <= 0x7fff_ffff_ffff_ffff,
                            n as int >= 0,
                    ;
                }
                let f = population[idx].get_fitness();
                cum_scaled = cum_scaled + scale * (f as u128);
                idx = idx + 1;
            }
            let pick = if idx >= 1 {
                idx - 1
            } else {
                0
            };
            pool.push(population[pick].duplicate());
            proof {
                assert(pool@.last().genome() == population@[pick as int].genome());
            }
            s = s + 1;
        }
        pool
    }
}

} // verus!

//! Rank selection: members are ranked by fitness, the worst getting
//! weight one and the best weight `population_size`, and slots are drawn
//! with probability proportional to rank.

use vstd::prelude::*;

use crate::population::Individual;
use crate::rng::rand_u128_below;
use crate::selection::{drawn_from, Selection};

verus! {

/// Ranks the population by ascending fitness and samples each slot with
/// probability proportional to the rank (one for the worst member,
/// `population_size` for the best).
#[derive(Clone)]
pub struct RankSelection;

/// The sum of the ranks `1..=a`.
pub(crate) open spec fn rank_sum(a: int) -> int {
    a * (a + 1) / 2
}

impl<T: Individual> Selection<T> for RankSelection {
    fn get_mating_pool(&self, population: &Vec<T>) -> (r: Vec<T>) {
        let n = population.len();
        let idx = crate::evolution::sort_indices_by_fitness(population);
        let mut total: u128 = 0;
        let mut a: usize = 0;
        while a < n
            invariant
                a <= n,
                n < 0x1_0000_0000,
                total as int == rank_sum(a as int),
                total <= (a as int) * (a as int) + a as int,
            decreases n - a,
        {
            proof {
                assert(rank_sum(a as int + 1) == rank_sum(a as int) + a + 1) by (nonlinear_arith);
                assert(rank_sum(a as int) >= 0) by (nonlinear_arith)
                    requires
                        a as int >= 0,
                ;
                assert((a as int + 1) * (a as int + 1) + a as int + 1 < 0x1_0000_0000_0000_0000_0000)
                    by (nonlinear_arith)
                    requires
                        0 <= (a as int) < 0x1_0000_0000,
                ;
                assert(rank_sum(a as int + 1) <= (a as int + 1) * (a as int + 1) + a as int + 1)
                    by (nonlinear_arith)
                    requires
                        a as int >= 0,
                ;
            }
            total = total + (a as u128) + 1;
            a = a + 1;
        }
        if total < 1 {
            return crate::selection::do_nothing_selection::copy_pool(population);
        }
        let mut pool: Vec<T> = Vec::new();
        let mut s: usize = 0;
        while s < n
            invariant
                s <= n,
                n >= 1,
                n < 0x1_0000_0000,
                population@.len() == n as nat,
                idx@.len() == n as nat,
                forall|q: int| 0 <= q < idx@.len() ==> #[trigger] idx@[q] < n,
                total as int == rank_sum(n as int),
                total >= 1,
                pool@.len() == s as nat,
                forall|q: int| 0 <= q < s ==> drawn_from(population@, #[trigger] pool@[q]),
            decreases n - s,
        {
            let draw = rand_u128_below(total);
            let mut cum: u128 = 0;
            let mut a: usize = 0;
            let mut pick: usize = 0;
            let mut picked = false;
            while a < n
                invariant
                    a <= n,
                    n < 0x1_0000_0000,
                    idx@.len() == n as nat,
                    population@.len() == n as nat,
                    forall|q: int| 0 <= q < idx@.len() ==> #[trigger] idx@[q] < n,
                    cum as int == rank_sum(a as int),
                    cum <= (a as int) * (a as int) + a as int,
                    total as int == rank_sum(n as int),
                    draw < total,
                    picked ==> pick < n,
                    !picked ==> draw >= cum,
                decreases n - a,
            {
                proof {
                    assert(rank_sum(a as int + 1) == rank_sum(a as int) + a + 1)
                        by (nonlinear_arith);
                    assert(rank_sum(a as int) >= 0) by (nonlinear_arith)
                        requires
                            a as int >= 0,
                    ;
                    assert((a as int + 1) * (a as int + 1) + a as int + 1 < 0x1_0000_0000_0000_0000_0000)
                        by (nonlinear_arith)
                        requires
                            0 <= (a as int) < 0x1_0000_0000,
                    ;
                    assert(rank_sum(a as int + 1) <= (a as int + 1) * (a as int + 1) + a as int
                        + 1) by (nonlinear_arith)
                        requires
                            a as int >= 0,
                    ;
                }
                cum = cum + (a as u128) + 1;
                if !picked && draw < cum {
                    pick = idx[a];
                    picked = true;
                }
                a = a + 1;
            }
            proof {
                if !picked {
                    assert(false);
                }
            }
            pool.push(population[pick].duplicate());
            proof {
                assert(pool@.last().genome() == population@[pick as int].genome());
            }
            s = s + 1;
        }
        pool
    }
}

} // verus!

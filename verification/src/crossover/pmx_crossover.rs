//! Partially-mapped crossover (PMX) for permutation genomes: a matching
//! segment is exchanged, and duplicates outside the segment are repaired
//! by following the mapping the segment induces, chains included.

use vstd::prelude::*;

use crate::crossover::Crossover;
use crate::population::{copy_genes, Individual, IntPerm};
use crate::rng::{coin, rand_index};
use crate::utils::check_permutation;

verus! {

/// Exchanges a random matching segment between two parents and repairs
/// the genes outside the segment through the mapping table.
#[derive(Clone)]
pub struct PMXCrossover {
    /// The probability of recombining a pair, in ten-thousandths.
    pub crossover_rate: u32,
}

impl Default for PMXCrossover {
    /// Recombines four pairs in five.
    fn default() -> (r: Self)
        ensures
            r.crossover_rate == 8000,
    {
        PMXCrossover { crossover_rate: 8000 }
    }
}

/// The repair table the exchanged segment induces: entry `v - 1` holds
/// the value paired with `v` where `v` is a segment key, and zero where
/// it is not.
pub open spec fn pmx_table(keys: Seq<i64>, vals: Seq<i64>, start: int, end: int, n: nat) -> Seq<
    i64,
> {
    Seq::new(
        n,
        |k: int|
            if exists|i: int| start <= i < end && #[trigger] keys[i] == k + 1 {
                vals[choose|i: int| start <= i < end && #[trigger] keys[i] == k + 1]
            } else {
                0
            },
    )
}

/// The chained-mapping resolution of `v`: follow the table while it maps
/// the value, for at most `fuel` steps.
pub open spec fn chase_spec(map: Seq<i64>, v: i64, fuel: nat) -> i64
    recommends
        1 <= v <= map.len(),
    decreases fuel,
{
    if fuel == 0 {
        v
    } else {
        let next = map[v - 1];
        if next == 0 {
            v
        } else {
            chase_spec(map, next, (fuel - 1) as nat)
        }
    }
}

/// Follows the mapping from `value` until it leaves the table (a zero
/// entry), or the chain exceeds the table size; the result is the
/// chained-mapping resolution, always a value in `1..=n`.
fn chase(map: &Vec<i64>, start_value: i64) -> (r: i64)
    requires
        1 <= start_value <= map@.len(),
        forall|k: int| 0 <= k < map@.len() ==> #[trigger] map@[k] == 0 || (1 <= map@[k]
            <= map@.len()),
    ensures
        1 <= r <= map@.len(),
        r == chase_spec(map@, start_value, map@.len()),
{
    let n = map.len();
    let mut value = start_value;
    let mut fuel = n;
    while fuel > 0
        invariant
            1 <= value <= n,
            fuel <= n,
            map@.len() == n as nat,
            forall|k: int| 0 <= k < n ==> #[trigger] map@[k] == 0 || (1 <= map@[k] <= n),
            chase_spec(map@, start_value, n as nat) == chase_spec(map@, value, fuel as nat),
        decreases fuel,
    {
        let next = map[(value as u64 - 1) as usize];
        if next == 0 {
            proof {
                assert(chase_spec(map@, value, fuel as nat) == value);
            }
            return value;
        }
        proof {
            assert(chase_spec(map@, value, fuel as nat) == chase_spec(
                map@,
                next,
                (fuel - 1) as nat,
            ));
        }
        value = next;
        fuel = fuel - 1;
    }
    value
}

impl PMXCrossover {
    /// Exchanges the half-open segment `[start, end)` between the two
    /// permutations and repairs every position outside it by following
    /// the mapping table the segment induces, chains included.
    #[verifier::rlimit(100)]
    pub fn pmx_matching(parent1: &mut Vec<i64>, parent2: &mut Vec<i64>, start: usize, end: usize)
        requires
            old(parent1)@.len() == old(parent2)@.len(),
            start <= end,
            end <= old(parent1)@.len(),
            crate::population::is_permutation(old(parent1)@, old(parent1)@.len()),
            crate::population::is_permutation(old(parent2)@, old(parent2)@.len()),
        ensures
            final(parent1)@.len() == old(parent1)@.len(),
            final(parent2)@.len() == old(parent2)@.len(),
            forall|i: int|
                start <= i < end ==> #[trigger] final(parent1)@[i] == old(parent2)@[i] && final(parent2)@[i] == old(parent1)@[i],
            forall|i: int|
                0 <= i < final(parent1)@.len() && !(start <= i < end) ==> #[trigger] final(parent1)@[i] == chase_spec(
                    pmx_table(
                        old(parent2)@,
                        old(parent1)@,
                        start as int,
                        end as int,
                        old(parent1)@.len(),
                    ),
                    old(parent1)@[i],
                    old(parent1)@.len(),
                ),
            forall|i: int|
                0 <= i < final(parent2)@.len() && !(start <= i < end) ==> #[trigger] final(parent2)@[i] == chase_spec(
                    pmx_table(
                        old(parent1)@,
                        old(parent2)@,
                        start as int,
                        end as int,
                        old(parent1)@.len(),
                    ),
                    old(parent2)@[i],
                    old(parent1)@.len(),
                ),
            forall|i: int|
                0 <= i < final(parent1)@.len() ==> 1 <= #[trigger] final(parent1)@[i] <= final(parent1)@.len(),
            forall|i: int|
                0 <= i < final(parent2)@.len() ==> 1 <= #[trigger] final(parent2)@[i] <= final(parent2)@.len(),
    {
        let n = parent1.len();
        let ghost o1 = old(parent1)@;
        let ghost o2 = old(parent2)@;
        let ghost table1 = pmx_table(o1, o2, start as int, end as int, n as nat);
        let ghost table2 = pmx_table(o2, o1, start as int, end as int, n as nat);
        crate::crossover::NPointsCrossover::swap_sections(parent1, parent2, start, end);
        proof {
            assert forall|p: int| 0 <= p < n implies 1 <= #[trigger] parent1@[p] <= n by {
                if start <= p < end {
                    assert(parent1@[p] == o2[p]);
                } else {
                    assert(parent1@[p] == o1[p]);
                }
            }
            assert forall|p: int| 0 <= p < n implies 1 <= #[trigger] parent2@[p] <= n by {
                if start <= p < end {
                    assert(parent1@[p] == o2[p]);
                    assert(parent2@[p] == o1[p]);
                } else {
                    assert(parent1@[p] == o1[p]);
                    assert(parent2@[p] == o2[p]);
                }
            }
        }
        proof {
            assert forall|p: int| start <= p < end implies #[trigger] parent1@[p] == o2[p] by {
                assert(parent1@[p] == o2[p]);
            }
            assert forall|p: int| start <= p < end implies #[trigger] parent2@[p] == o1[p] by {
                assert(parent1@[p] == o2[p]);
                assert(parent2@[p] == o1[p]);
            }
            assert forall|p: int|
                0 <= p < n && !(start <= p < end) implies #[trigger] parent1@[p] == o1[p] by {
                assert(parent1@[p] == o1[p]);
            }
            assert forall|p: int|
                0 <= p < n && !(start <= p < end) implies #[trigger] parent2@[p] == o2[p] by {
                assert(parent1@[p] == o1[p]);
                assert(parent2@[p] == o2[p]);
            }
        }
        let mut matching_section_1: Vec<i64> = vec![0; n];
        let mut matching_section_2: Vec<i64> = vec![0; n];
        let mut i: usize = start;
        while i < end
            invariant
                start <= i,
                i <= end || i == start,
                end <= n,
                o1.len() == n as nat,
                o2.len() == n as nat,
                o1.no_duplicates(),
                o2.no_duplicates(),
                parent1@.len() == n as nat,
                parent2@.len() == n as nat,
                matching_section_1@.len() == n as nat,
                matching_section_2@.len() == n as nat,
                forall|p: int| start <= p < end ==> #[trigger] parent1@[p] == o2[p],
                forall|p: int| start <= p < end ==> #[trigger] parent2@[p] == o1[p],
                forall|p: int| 0 <= p < n ==> 1 <= #[trigger] parent1@[p] <= n,
                forall|p: int| 0 <= p < n ==> 1 <= #[trigger] parent2@[p] <= n,
                forall|p: int| 0 <= p < n ==> 1 <= #[trigger] o1[p] <= n,
                forall|p: int| 0 <= p < n ==> 1 <= #[trigger] o2[p] <= n,
                forall|k: int|
                    #![trigger matching_section_1@[k]]
                    0 <= k < n ==> matching_section_1@[k] == (if exists|i2: int|
                        start <= i2 < i && #[trigger] o1[i2] == k + 1 {
                        o2[choose|i2: int| start <= i2 < i && #[trigger] o1[i2] == k + 1]
                    } else {
                        0i64
                    }),
                forall|k: int|
                    #![trigger matching_section_2@[k]]
                    0 <= k < n ==> matching_section_2@[k] == (if exists|i2: int|
                        start <= i2 < i && #[trigger] o2[i2] == k + 1 {
                        o1[choose|i2: int| start <= i2 < i && #[trigger] o2[i2] == k + 1]
                    } else {
                        0i64
                    }),
            decreases end - i,
        {
            let key1 = parent2[i];
            let val1 = parent1[i];
            proof {
                assert(key1 == o1[i as int]);
                assert(val1 == o2[i as int]);
            }
            let ghost m1_before = matching_section_1@;
            let ghost m2_before = matching_section_2@;
            matching_section_1.set((key1 as u64 - 1) as usize, val1);
            matching_section_2.set((val1 as u64 - 1) as usize, key1);
            proof {
                assert forall|k: int|
                    #![trigger matching_section_1@[k]]
                    0 <= k < n implies matching_section_1@[k] == (if exists|i2: int|
                    start <= i2 < i + 1 && #[trigger] o1[i2] == k + 1 {
                    o2[choose|i2: int| start <= i2 < i + 1 && #[trigger] o1[i2] == k + 1]
                } else {
                    0i64
                }) by {
                    if k == o1[i as int] - 1 {
                        assert(o1[i as int] == k + 1);
                        let w = choose|i2: int| start <= i2 < i + 1 && #[trigger] o1[i2] == k + 1;
                        assert(w == i as int);
                    } else {
                        assert(matching_section_1@[k] == m1_before[k]);
                        assert(forall|i2: int|
                            start <= i2 < i + 1 && #[trigger] o1[i2] == k + 1 ==> i2 < i);
                    }
                }
                assert forall|k: int|
                    #![trigger matching_section_2@[k]]
                    0 <= k < n implies matching_section_2@[k] == (if exists|i2: int|
                    start <= i2 < i + 1 && #[trigger] o2[i2] == k + 1 {
                    o1[choose|i2: int| start <= i2 < i + 1 && #[trigger] o2[i2] == k + 1]
                } else {
                    0i64
                }) by {
                    if k == o2[i as int] - 1 {
                        assert(o2[i as int] == k + 1);
                        let w = choose|i2: int| start <= i2 < i + 1 && #[trigger] o2[i2] == k + 1;
                        assert(w == i as int);
                    } else {
                        assert(matching_section_2@[k] == m2_before[k]);
                        assert(forall|i2: int|
                            start <= i2 < i + 1 && #[trigger] o2[i2] == k + 1 ==> i2 < i);
                    }
                }
            }
            i = i + 1;
        }
        proof {
            assert(matching_section_1@ =~= table1);
            assert(matching_section_2@ =~= table2);
            assert forall|k: int|
                0 <= k < n implies (#[trigger] matching_section_1@[k] == 0 || (1
                <= matching_section_1@[k] <= n)) by {
                if matching_section_1@[k] != 0 {
                    let w = choose|i2: int|
                        start <= i2 < end && #[trigger] o1[i2] == k + 1;
                    assert(1 <= o2[w] <= n);
                }
            }
            assert forall|k: int|
                0 <= k < n implies (#[trigger] matching_section_2@[k] == 0 || (1
                <= matching_section_2@[k] <= n)) by {
                if matching_section_2@[k] != 0 {
                    let w = choose|i2: int|
                        start <= i2 < end && #[trigger] o2[i2] == k + 1;
                    assert(1 <= o1[w] <= n);
                }
            }
        }
        let mut j: usize = 0;
        while j < n
            invariant
                j <= n,
                start <= end <= n,
                o1.len() == n as nat,
                o2.len() == n as nat,
                parent1@.len() == n as nat,
                parent2@.len() == n as nat,
                matching_section_1@ == table1,
                matching_section_2@ == table2,
                matching_section_1@.len() == n as nat,
                matching_section_2@.len() == n as nat,
                forall|k: int|
                    0 <= k < n ==> #[trigger] matching_section_1@[k] == 0 || (1
                        <= matching_section_1@[k] <= n),
                forall|k: int|
                    0 <= k < n ==> #[trigger] matching_section_2@[k] == 0 || (1
                        <= matching_section_2@[k] <= n),
                forall|p: int| start <= p < end ==> #[trigger] parent1@[p] == o2[p],
                forall|p: int| start <= p < end ==> #[trigger] parent2@[p] == o1[p],
                forall|p: int|
                    0 <= p < n && !(start <= p < end) && p >= j ==> #[trigger] parent1@[p]
                        == o1[p],
                forall|p: int|
                    0 <= p < n && !(start <= p < end) && p >= j ==> #[trigger] parent2@[p]
                        == o2[p],
                forall|p: int|
                    0 <= p < n && !(start <= p < end) && p < j ==> #[trigger] parent1@[p]
                        == chase_spec(table2, o1[p], n as nat),
                forall|p: int|
                    0 <= p < n && !(start <= p < end) && p < j ==> #[trigger] parent2@[p]
                        == chase_spec(table1, o2[p], n as nat),
                forall|p: int| 0 <= p < n ==> 1 <= #[trigger] parent1@[p] <= n,
                forall|p: int| 0 <= p < n ==> 1 <= #[trigger] parent2@[p] <= n,
            decreases n - j,
        {
            if j < start || j >= end {
                let resolved1 = chase(&matching_section_2, parent1[j]);
                parent1.set(j, resolved1);
                let resolved2 = chase(&matching_section_1, parent2[j]);
                parent2.set(j, resolved2);
            }
            j = j + 1;
        }
    }
}

impl Crossover<IntPerm> for PMXCrossover {
    open spec fn pair_ok(&self, p1: IntPerm, p2: IntPerm, c1: IntPerm, c2: IntPerm) -> bool {
        &&& c1.genome().len() == p1.genome().len()
        &&& c2.genome().len() == p2.genome().len()
        &&& forall|i: int|
            0 <= i < c1.genome().len() ==> 1 <= #[trigger] c1.genome()[i] <= c1.genome().len()
        &&& forall|i: int|
            0 <= i < c2.genome().len() ==> 1 <= #[trigger] c2.genome()[i] <= c2.genome().len()
    }

    fn crossover(&self, population: &mut Vec<IntPerm>) {
        let ghost pre = population@;
        let n = population.len();
        let half = n / 2;
        let mut k: usize = 0;
        while k < half
            invariant
                k <= half,
                population@.len() == n as nat,
                population@.len() == pre.len(),
                half == n / 2,
                forall|i: int|
                    0 <= i < pre.len() ==> #[trigger] population@[i].genome().len()
                        == pre[i].genome().len() && population@[i].fitness_of()
                        == pre[i].fitness_of(),
                forall|i: int|
                    #![trigger population@[i]]
                    0 <= i && i + 1 < 2 * k && i % 2 == 0 ==> ((population@[i] == pre[i]
                        && population@[i + 1] == pre[i + 1]) || self.pair_ok(
                        pre[i],
                        pre[i + 1],
                        population@[i],
                        population@[i + 1],
                    )),
                forall|i: int| 2 * k <= i < pre.len() ==> #[trigger] population@[i] == pre[i],
            decreases half - k,
        {
            let a = 2 * k;
            let b = 2 * k + 1;
            proof {
                assert(population@[a as int].genome().len() == pre[a as int].genome().len());
                assert(population@[b as int].genome().len() == pre[b as int].genome().len());
            }
            if coin(self.crossover_rate) && population[a].chromosome.len()
                == population[b].chromosome.len() && population[a].chromosome.len() >= 1
                && check_permutation(&population[a].chromosome) && check_permutation(
                &population[b].chromosome,
            ) {
                let len = population[a].chromosome.len();
                let start = rand_index(len);
                let end = start + rand_index(len - start);
                let mut ca = copy_genes(&population[a].chromosome);
                let mut cb = copy_genes(&population[b].chromosome);
                Self::pmx_matching(&mut ca, &mut cb, start, end);
                let fa = population[a].fitness;
                let fb = population[b].fitness;
                population.set(a, IntPerm { chromosome: ca, fitness: fa });
                population.set(b, IntPerm { chromosome: cb, fitness: fb });
                proof {
                    assert(self.pair_ok(
                        pre[a as int],
                        pre[b as int],
                        population@[a as int],
                        population@[b as int],
                    ));
                    assert(population@[a as int].genome().len() == pre[a as int].genome().len());
                    assert(population@[b as int].genome().len() == pre[b as int].genome().len());
                    assert(population@[a as int].fitness_of() == pre[a as int].fitness_of());
                    assert(population@[b as int].fitness_of() == pre[b as int].fitness_of());
                }
            } else {
                proof {
                    assert(population@[a as int] == pre[a as int]);
                    assert(population@[b as int] == pre[b as int]);
                }
            }
            k = k + 1;
        }
        proof {
            if pre.len() % 2 == 1 {
                assert(population@[pre.len() - 1] == pre[pre.len() - 1]);
            }
        }
    }
}

} // verus!

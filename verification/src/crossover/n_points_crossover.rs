//! N-point crossover for bit strings: cut points split the genomes into
//! segments, and alternating segments are exchanged between the parents.

use vstd::prelude::*;

use crate::crossover::{genes_kept_or_swapped, Crossover};
use crate::population::{copy_genes, Bin, Individual};
use crate::rng::coin;
use crate::utils::{random_distinct_indices, sort_ascending};

verus! {

/// Exchanges alternating segments between two parents, the segments being
/// delimited by `n_points` cut points chosen without replacement and
/// sorted ascending.  With one point this is single-point crossover, with
/// two the classic two-point crossover.
#[derive(Clone)]
pub struct NPointsCrossover {
    /// The probability of recombining a pair, in ten-thousandths.
    pub crossover_rate: u32,
    /// The number of cut points.
    pub n_points: usize,
}

impl Default for NPointsCrossover {
    /// Single-point crossover applied to four pairs in five.
    fn default() -> (r: Self)
        ensures
            r.crossover_rate == 8000,
            r.n_points == 1,
    {
        NPointsCrossover { crossover_rate: 8000, n_points: 1 }
    }
}

impl NPointsCrossover {
    /// Exchanges the genes of the two vectors on the half-open range
    /// `[start, end)` and leaves every other position untouched.
    pub fn swap_sections<G: Copy>(vec1: &mut Vec<G>, vec2: &mut Vec<G>, start: usize, end: usize)
        requires
            end <= old(vec1)@.len(),
            end <= old(vec2)@.len(),
        ensures
            final(vec1)@.len() == old(vec1)@.len(),
            final(vec2)@.len() == old(vec2)@.len(),
            forall|i: int|
                start <= i < end ==> #[trigger] final(vec1)@[i] == old(vec2)@[i] && final(vec2)@[i] == old(vec1)@[i],
            forall|i: int|
                0 <= i < final(vec1)@.len() && !(start <= i < end) ==> #[trigger] final(vec1)@[i]
                    == old(vec1)@[i],
            forall|i: int|
                0 <= i < final(vec2)@.len() && !(start <= i < end) ==> #[trigger] final(vec2)@[i]
                    == old(vec2)@[i],
    {
        let mut i: usize = start;
        while i < end
            invariant
                start <= i,
                i <= end || i == start,
                end <= vec1@.len(),
                end <= vec2@.len(),
                vec1@.len() == old(vec1)@.len(),
                vec2@.len() == old(vec2)@.len(),
                forall|p: int|
                    start <= p < i ==> #[trigger] vec1@[p] == old(vec2)@[p] && vec2@[p] == old(vec1)@[p],
                forall|p: int|
                    0 <= p < vec1@.len() && !(start <= p < i) ==> #[trigger] vec1@[p] == old(vec1)@[p],
                forall|p: int|
                    0 <= p < vec2@.len() && !(start <= p < i) ==> #[trigger] vec2@[p] == old(vec2)@[p],
            decreases end - i,
        {
            let t1 = vec1[i];
            let t2 = vec2[i];
            vec1.set(i, t2);
            vec2.set(i, t1);
            i = i + 1;
        }
    }

    /// Recombines one pair of equal-length chromosomes in place.
    fn recombine<G: Copy>(&self, c1: &mut Vec<G>, c2: &mut Vec<G>)
        requires
            old(c1)@.len() == old(c2)@.len(),
            old(c1)@.len() >= 1,
        ensures
            genes_kept_or_swapped(old(c1)@, old(c2)@, final(c1)@, final(c2)@),
    {
        let ghost o1 = c1@;
        let ghost o2 = c2@;
        let len = c1.len();
        let mut points = random_distinct_indices(len, self.n_points);
        let ghost unsorted = points@;
        sort_ascending(&mut points);
        proof {
            crate::population::lemma_multiset_membership(unsorted, points@);
            assert forall|p: int| 0 <= p < points@.len() implies #[trigger] points@[p] < len by {
                assert(unsorted.contains(points@[p]));
            }
        }
        let mut j: usize = 0;
        while j < points.len()
            invariant
                j <= points@.len(),
                c1@.len() == len as nat,
                c2@.len() == len as nat,
                o1.len() == len as nat,
                o2.len() == len as nat,
                forall|a: int, b: int| 0 <= a < b < points@.len() ==> points@[a] <= points@[b],
                forall|p: int| 0 <= p < points@.len() ==> #[trigger] points@[p] < len,
                genes_kept_or_swapped(o1, o2, c1@, c2@),
            decreases points@.len() - j,
        {
            let s = points[j];
            let e = if j + 1 < points.len() {
                points[j + 1]
            } else {
                len
            };
            let ghost b1 = c1@;
            let ghost b2 = c2@;
            Self::swap_sections(c1, c2, s, e);
            proof {
                assert forall|i: int|
                    #![trigger c1@[i]]
                    0 <= i < len implies ((c1@[i] == o1[i] && c2@[i] == o2[i]) || (c1@[i] == o2[i]
                    && c2@[i] == o1[i])) by {
                    if s <= i < e {
                        assert(c1@[i] == b2[i] && c2@[i] == b1[i]);
                    } else {
                        assert(c1@[i] == b1[i] && c2@[i] == b2[i]);
                    }
                }
            }
            j = if points.len() - j >= 2 {
                j + 2
            } else {
                points.len()
            };
        }
    }
}

impl Crossover<Bin> for NPointsCrossover {
    open spec fn pair_ok(&self, p1: Bin, p2: Bin, c1: Bin, c2: Bin) -> bool {
        genes_kept_or_swapped(p1.genome(), p2.genome(), c1.genome(), c2.genome())
    }

    fn crossover(&self, population: &mut Vec<Bin>) {
        let ghost pre = population@;
        let n = population.len();
        let half = n / 2;
        let mut k: usize = 0;
        while k < half
            invariant
                k <= half,
                population@.len() == n as nat,
                population@.len() == pre.len(),
                half == n / 2,
                forall|i: int|
                    0 <= i < pre.len() ==> #[trigger] population@[i].genome().len()
                        == pre[i].genome().len() && population@[i].fitness_of()
                        == pre[i].fitness_of(),
                forall|i: int|
                    #![trigger population@[i]]
                    0 <= i && i + 1 < 2 * k && i % 2 == 0 ==> ((population@[i] == pre[i]
                        && population@[i + 1] == pre[i + 1]) || self.pair_ok(
                        pre[i],
                        pre[i + 1],
                        population@[i],
                        population@[i + 1],
                    )),
                forall|i: int| 2 * k <= i < pre.len() ==> #[trigger] population@[i] == pre[i],
            decreases half - k,
        {
            let a = 2 * k;
            let b = 2 * k + 1;
            if coin(self.crossover_rate) && population[a].chromosome.len()
                == population[b].chromosome.len() && population[a].chromosome.len() >= 1 {
                let mut ca = copy_genes(&population[a].chromosome);
                let mut cb = copy_genes(&population[b].chromosome);
                self.recombine(&mut ca, &mut cb);
                let fa = population[a].fitness;
                let fb = population[b].fitness;
                population.set(a, Bin { chromosome: ca, fitness: fa });
                population.set(b, Bin { chromosome: cb, fitness: fb });
                proof {
                    assert(self.pair_ok(
                        pre[a as int],
                        pre[b as int],
                        population@[a as int],
                        population@[b as int],
                    ));
                }
            } else {
                proof {
                    assert(population@[a as int] == pre[a as int]);
                    assert(population@[b as int] == pre[b as int]);
                }
            }
            k = k + 1;
        }
        proof {
            if pre.len() % 2 == 1 {
                assert(population@[pre.len() - 1] == pre[pre.len() - 1]);
            }
        }
    }
}

} // verus!

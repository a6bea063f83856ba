//! Order crossover (OX), wrap-around variant, for permutation genomes:
//! the segment between two points is kept, and the remaining positions
//! are filled with the other parent's genes, walking both the source and
//! the target cyclically from just after the segment.

use vstd::prelude::*;

use crate::crossover::Crossover;
use crate::population::{copy_genes, Individual, IntPerm};
use crate::rng::{coin, rand_index};
use crate::utils::check_permutation;

verus! {

/// Keeps the genes on the closed segment `[start, end]` and fills the
/// remaining positions cyclically, starting after the segment, with the
/// other parent's genes in cyclic order, skipping genes already present.
#[derive(Clone)]
pub struct OXCrossover {
    /// The probability of recombining a pair, in ten-thousandths.
    pub crossover_rate: u32,
}

impl Default for OXCrossover {
    /// Recombines four pairs in five.
    fn default() -> (r: Self)
        ensures
            r.crossover_rate == 8000,
    {
        OXCrossover { crossover_rate: 8000 }
    }
}

/// A sequence read cyclically from position `cut`.
pub open spec fn rotate_from(s: Seq<i64>, cut: int) -> Seq<i64> {
    s.subrange(cut, s.len() as int) + s.subrange(0, cut)
}

/// The rank of position `p` in the cyclic order that starts just after
/// the closed segment's end.
pub open spec fn cyclic_index(end: int, n: int, p: int) -> int {
    if p > end {
        p - end - 1
    } else {
        n - end - 1 + p
    }
}

/// Builds one OX child: the segment holds `keeper`'s genes, and the
/// remaining positions, walked cyclically from just after the segment,
/// take the donor's genes in cyclic order, skipping the genes the
/// segment already holds (positions the queue cannot reach keep the
/// donor's gene).
fn fill_ox_child(keeper: &Vec<i64>, donor: &Vec<i64>, start: usize, end: usize) -> (child: Vec<
    i64,
>)
    requires
        keeper@.len() == donor@.len(),
        start <= end,
        end < keeper@.len(),
        crate::population::is_permutation(keeper@, keeper@.len()),
        crate::population::is_permutation(donor@, donor@.len()),
    ensures
        child@.len() == keeper@.len(),
        forall|i: int| start <= i <= end ==> #[trigger] child@[i] == keeper@[i],
        forall|p: int|
            0 <= p < child@.len() && !(start <= p <= end) ==> #[trigger] child@[p] == (if
            cyclic_index(end as int, keeper@.len() as int, p) < crate::crossover::ordered_crossover::refill_queue(
                rotate_from(donor@, end + 1),
                keeper@,
                start as int,
                end as int,
            ).len() {
                crate::crossover::ordered_crossover::refill_queue(
                    rotate_from(donor@, end + 1),
                    keeper@,
                    start as int,
                    end as int,
                )[cyclic_index(end as int, keeper@.len() as int, p)]
            } else {
                donor@[p]
            }),
        forall|i: int| 0 <= i < child@.len() ==> 1 <= #[trigger] child@[i] <= child@.len(),
{
    let n = keeper.len();
    let marks = crate::crossover::ordered_crossover::segment_marks(keeper, start, end);
    let mut rotated: Vec<i64> = Vec::new();
    let mut j: usize = end + 1;
    while j < n
        invariant
            end + 1 <= j <= n,
            donor@.len() == n as nat,
            crate::population::is_permutation(donor@, n as nat),
            rotated@ == donor@.subrange(end + 1, j as int),
        decreases n - j,
    {
        rotated.push(donor[j]);
        proof {
            assert(rotated@ =~= donor@.subrange(end + 1, j + 1int));
        }
        j = j + 1;
    }
    let mut j: usize = 0;
    while j < end + 1
        invariant
            j <= end + 1,
            end < n,
            donor@.len() == n as nat,
            crate::population::is_permutation(donor@, n as nat),
            rotated@ == donor@.subrange(end + 1, n as int) + donor@.subrange(0, j as int),
        decreases end + 1 - j,
    {
        rotated.push(donor[j]);
        proof {
            assert(rotated@ =~= donor@.subrange(end + 1, n as int) + donor@.subrange(
                0,
                j + 1int,
            ));
        }
        j = j + 1;
    }
    proof {
        assert(rotated@ == rotate_from(donor@, end + 1));
        assert forall|p: int| 0 <= p < rotated@.len() implies 1 <= #[trigger] rotated@[p]
            <= rotated@.len() by {
            if p < n - end - 1 {
                assert(rotated@[p] == donor@[end + 1 + p]);
            } else {
                assert(rotated@[p] == donor@[p - (n - end - 1)]);
            }
        }
    }
    let queue = crate::crossover::ordered_crossover::collect_refill(
        &rotated,
        &marks,
        Ghost(keeper@),
        start,
        end,
    );
    let ghost qseq = queue@;
    let mut child = crate::population::copy_genes(keeper);
    let gap = n - 1 - end + start;
    let mut t: usize = 0;
    while t < gap
        invariant
            t <= gap,
            gap == n - 1 - end + start,
            start <= end < n,
            keeper@.len() == n as nat,
            donor@.len() == n as nat,
            child@.len() == n as nat,
            qseq == crate::crossover::ordered_crossover::refill_queue(
                rotate_from(donor@, end + 1),
                keeper@,
                start as int,
                end as int,
            ),
            queue@ == qseq,
            forall|q: int| 0 <= q < qseq.len() ==> 1 <= #[trigger] qseq[q] <= n,
            forall|p: int| 0 <= p < n ==> 1 <= #[trigger] keeper@[p] <= n,
            forall|p: int| 0 <= p < n ==> 1 <= #[trigger] donor@[p] <= n,
            forall|i: int| start <= i <= end ==> #[trigger] child@[i] == keeper@[i],
            forall|p: int|
                0 <= p < n && !(start <= p <= end) && cyclic_index(end as int, n as int, p) < t
                    ==> #[trigger] child@[p] == (if cyclic_index(end as int, n as int, p)
                    < qseq.len() {
                    qseq[cyclic_index(end as int, n as int, p)]
                } else {
                    donor@[p]
                }),
            forall|p: int|
                0 <= p < n && !(start <= p <= end) && cyclic_index(end as int, n as int, p) >= t
                    ==> #[trigger] child@[p] == keeper@[p],
            forall|i: int| 0 <= i < n ==> 1 <= #[trigger] child@[i] <= n,
        decreases gap - t,
    {
        let p = if t < n - end - 1 {
            end + 1 + t
        } else {
            t - (n - end - 1)
        };
        proof {
            assert(!(start <= p as int <= end));
            assert(cyclic_index(end as int, n as int, p as int) == t);
        }
        if t < queue.len() {
            let v = queue[t];
            child.set(p, v);
        } else {
            let v = donor[p];
            child.set(p, v);
        }
        t = t + 1;
    }
    child
}

impl OXCrossover {
    /// Recombines two permutations in place, keeping the closed segment
    /// `[start, end]` of each parent and refilling the rest, walked
    /// cyclically from just after the segment, with the other parent's
    /// genes in cyclic order, skipping the genes the segment holds.
    pub fn apply_ox(parent1: &mut Vec<i64>, parent2: &mut Vec<i64>, start: usize, end: usize)
        requires
            old(parent1)@.len() == old(parent2)@.len(),
            start <= end,
            end < old(parent1)@.len(),
            crate::population::is_permutation(old(parent1)@, old(parent1)@.len()),
            crate::population::is_permutation(old(parent2)@, old(parent2)@.len()),
        ensures
            final(parent1)@.len() == old(parent1)@.len(),
            final(parent2)@.len() == old(parent2)@.len(),
            forall|i: int|
                start <= i <= end ==> #[trigger] final(parent1)@[i] == old(parent1)@[i] && final(parent2)@[i] == old(parent2)@[i],
            forall|p: int|
                0 <= p < final(parent1)@.len() && !(start <= p <= end) ==> #[trigger] final(parent1)@[p] == (if cyclic_index(end as int, old(parent1)@.len() as int, p) < crate::crossover::ordered_crossover::refill_queue(
                    rotate_from(old(parent2)@, end + 1),
                    old(parent1)@,
                    start as int,
                    end as int,
                ).len() {
                    crate::crossover::ordered_crossover::refill_queue(
                        rotate_from(old(parent2)@, end + 1),
                        old(parent1)@,
                        start as int,
                        end as int,
                    )[cyclic_index(end as int, old(parent1)@.len() as int, p)]
                } else {
                    old(parent2)@[p]
                }),
            forall|p: int|
                0 <= p < final(parent2)@.len() && !(start <= p <= end) ==> #[trigger] final(parent2)@[p] == (if cyclic_index(end as int, old(parent1)@.len() as int, p) < crate::crossover::ordered_crossover::refill_queue(
                    rotate_from(old(parent1)@, end + 1),
                    old(parent2)@,
                    start as int,
                    end as int,
                ).len() {
                    crate::crossover::ordered_crossover::refill_queue(
                        rotate_from(old(parent1)@, end + 1),
                        old(parent2)@,
                        start as int,
                        end as int,
                    )[cyclic_index(end as int, old(parent1)@.len() as int, p)]
                } else {
                    old(parent1)@[p]
                }),
            forall|i: int|
                0 <= i < final(parent1)@.len() ==> 1 <= #[trigger] final(parent1)@[i] <= final(parent1)@.len(),
            forall|i: int|
                0 <= i < final(parent2)@.len() ==> 1 <= #[trigger] final(parent2)@[i] <= final(parent2)@.len(),
    {
        let child1 = fill_ox_child(parent1, parent2, start, end);
        let child2 = fill_ox_child(parent2, parent1, start, end);
        *parent1 = child1;
        *parent2 = child2;
    }
}

impl Crossover<IntPerm> for OXCrossover {
    open spec fn pair_ok(&self, p1: IntPerm, p2: IntPerm, c1: IntPerm, c2: IntPerm) -> bool {
        &&& c1.genome().len() == p1.genome().len()
        &&& c2.genome().len() == p2.genome().len()
        &&& forall|i: int|
            0 <= i < c1.genome().len() ==> 1 <= #[trigger] c1.genome()[i] <= c1.genome().len()
        &&& forall|i: int|
            0 <= i < c2.genome().len() ==> 1 <= #[trigger] c2.genome()[i] <= c2.genome().len()
    }

    fn crossover(&self, population: &mut Vec<IntPerm>) {
        let ghost pre = population@;
        let n = population.len();
        let half = n / 2;
        let mut k: usize = 0;
        while k < half
            invariant
                k <= half,
                population@.len() == n as nat,
                population@.len() == pre.len(),
                half == n / 2,
                forall|i: int|
                    0 <= i < pre.len() ==> #[trigger] population@[i].genome().len()
                        == pre[i].genome().len() && population@[i].fitness_of()
                        == pre[i].fitness_of(),
                forall|i: int|
                    #![trigger population@[i]]
                    0 <= i && i + 1 < 2 * k && i % 2 == 0 ==> ((population@[i] == pre[i]
                        && population@[i + 1] == pre[i + 1]) || self.pair_ok(
                        pre[i],
                        pre[i + 1],
                        population@[i],
                        population@[i + 1],
                    )),
                forall|i: int| 2 * k <= i < pre.len() ==> #[trigger] population@[i] == pre[i],
            decreases half - k,
        {
            let a = 2 * k;
            let b = 2 * k + 1;
            proof {
                assert(population@[a as int].genome().len() == pre[a as int].genome().len());
                assert(population@[b as int].genome().len() == pre[b as int].genome().len());
            }
            if coin(self.crossover_rate) && population[a].chromosome.len()
                == population[b].chromosome.len() && population[a].chromosome.len() >= 1
                && check_permutation(&population[a].chromosome) && check_permutation(
                &population[b].chromosome,
            ) {
                let len = population[a].chromosome.len();
                let start = rand_index(len);
                let end = start + rand_index(len - start);
                let mut ca = copy_genes(&population[a].chromosome);
                let mut cb = copy_genes(&population[b].chromosome);
                Self::apply_ox(&mut ca, &mut cb, start, end);
                let fa = population[a].fitness;
                let fb = population[b].fitness;
                population.set(a, IntPerm { chromosome: ca, fitness: fa });
                population.set(b, IntPerm { chromosome: cb, fitness: fb });
                proof {
                    assert(self.pair_ok(
                        pre[a as int],
                        pre[b as int],
                        population@[a as int],
                        population@[b as int],
                    ));
                    assert(population@[a as int].genome().len() == pre[a as int].genome().len());
                    assert(population@[b as int].genome().len() == pre[b as int].genome().len());
                    assert(population@[a as int].fitness_of() == pre[a as int].fitness_of());
                    assert(population@[b as int].fitness_of() == pre[b as int].fitness_of());
                }
            } else {
                proof {
                    assert(population@[a as int] == pre[a as int]);
                    assert(population@[b as int] == pre[b as int]);
                }
            }
            k = k + 1;
        }
        proof {
            if pre.len() % 2 == 1 {
                assert(population@[pre.len() - 1] == pre[pre.len() - 1]);
            }
        }
    }
}

} // verus!

//! Ordered crossover (OX) for permutation genomes: the segment between
//! two points is kept, and the remaining positions are filled with the
//! other parent's genes in the order they appear.

use vstd::prelude::*;

use crate::crossover::Crossover;
use crate::population::{copy_genes, Individual, IntPerm};
use crate::rng::{coin, rand_index};
use crate::utils::check_permutation;

verus! {

/// Keeps the genes on the closed segment `[start, end]` and fills the
/// positions before and after it, front to back, with the other parent's
/// genes in relative order, skipping genes already present.
#[derive(Clone)]
pub struct OrderedCrossover {
    /// The probability of recombining a pair, in ten-thousandths.
    pub crossover_rate: u32,
}

impl Default for OrderedCrossover {
    /// Recombines four pairs in five.
    fn default() -> (r: Self)
        ensures
            r.crossover_rate == 8000,
    {
        OrderedCrossover { crossover_rate: 8000 }
    }
}

/// Whether the closed segment `[start, end]` of `keeper` holds the
/// value `v`.
pub open spec fn segment_holds(keeper: Seq<i64>, start: int, end: int, v: int) -> bool {
    exists|i: int| start <= i <= end && #[trigger] keeper[i] == v
}

/// The genes of `donor`, in their order of appearance, that the keeper's
/// segment does not hold: the queue that refills the positions outside
/// the segment.
pub open spec fn refill_queue(donor: Seq<i64>, keeper: Seq<i64>, start: int, end: int) -> Seq<i64>
    decreases donor.len(),
{
    if donor.len() == 0 {
        Seq::empty()
    } else {
        let rest = refill_queue(donor.drop_last(), keeper, start, end);
        if segment_holds(keeper, start, end, donor.last() as int) {
            rest
        } else {
            rest.push(donor.last())
        }
    }
}

/// How many positions outside the closed segment `[start, end]` come
/// before position `p`.
pub open spec fn outside_index(start: int, end: int, p: int) -> int {
    if p < start {
        p
    } else {
        p - (end - start + 1)
    }
}

/// How many positions outside the closed segment `[start, end]` lie
/// below `i`.
pub open spec fn outside_count(start: int, end: int, i: int) -> int {
    if i <= start {
        i
    } else if i <= end + 1 {
        start
    } else {
        i - (end - start + 1)
    }
}

/// Marks, by value, the genes the closed segment `[start, end]` of
/// `parent` holds.
pub(crate) fn segment_marks(parent: &Vec<i64>, start: usize, end: usize) -> (marks: Vec<bool>)
    requires
        start <= end,
        end < parent@.len(),
        crate::population::is_permutation(parent@, parent@.len()),
    ensures
        marks@.len() == parent@.len(),
        forall|k: int|
            0 <= k < marks@.len() ==> (#[trigger] marks@[k] <==> segment_holds(
                parent@,
                start as int,
                end as int,
                k + 1,
            )),
{
    let n = parent.len();
    let mut marks: Vec<bool> = vec![false; n];
    let mut i: usize = start;
    while i <= end
        invariant
            start <= i,
            i <= end + 1,
            end < n,
            parent@.len() == n as nat,
            marks@.len() == n as nat,
            crate::population::is_permutation(parent@, n as nat),
            forall|k: int|
                0 <= k < n ==> (#[trigger] marks@[k] <==> exists|i2: int|
                    start <= i2 < i && #[trigger] parent@[i2] == k + 1),
        decreases end + 1 - i,
    {
        proof {
            assert(1 <= parent@[i as int] <= n);
        }
        let v = parent[i];
        let ghost before = marks@;
        marks.set((v as u64 - 1) as usize, true);
        proof {
            assert forall|k: int|
                0 <= k < n implies (#[trigger] marks@[k] <==> exists|i2: int|
                start <= i2 < i + 1 && #[trigger] parent@[i2] == k + 1) by {
                if k == v - 1 {
                    assert(parent@[i as int] == k + 1);
                } else {
                    assert(marks@[k] == before[k]);
                    if marks@[k] {
                        let w = choose|i2: int| start <= i2 < i && #[trigger] parent@[i2] == k + 1;
                        assert(start <= w < i + 1 && parent@[w] == k + 1);
                    }
                    assert(forall|i2: int|
                        start <= i2 < i + 1 && #[trigger] parent@[i2] == k + 1 ==> i2 < i);
                }
            }
        }
        i = i + 1;
    }
    marks
}

/// Collects, in order, the donor's genes the keeper's segment does not
/// hold.
pub(crate) fn collect_refill(donor: &Vec<i64>, keeper_marks: &Vec<bool>, ghost_keeper: Ghost<Seq<i64>>, start: usize, end: usize) -> (queue: Vec<i64>)
    requires
        donor@.len() == keeper_marks@.len(),
        start <= end,
        end < donor@.len(),
        forall|j: int| 0 <= j < donor@.len() ==> 1 <= #[trigger] donor@[j] <= donor@.len(),
        forall|k: int|
            0 <= k < keeper_marks@.len() ==> (#[trigger] keeper_marks@[k] <==> segment_holds(
                ghost_keeper@,
                start as int,
                end as int,
                k + 1,
            )),
    ensures
        queue@ == refill_queue(donor@, ghost_keeper@, start as int, end as int),
        forall|q: int| 0 <= q < queue@.len() ==> 1 <= #[trigger] queue@[q] <= donor@.len(),
{
    let n = donor.len();
    let mut queue: Vec<i64> = Vec::new();
    let mut i: usize = 0;
    while i < n
        invariant
            i <= n,
            donor@.len() == n as nat,
            keeper_marks@.len() == n as nat,
            forall|j: int| 0 <= j < n ==> 1 <= #[trigger] donor@[j] <= n,
            forall|k: int|
                0 <= k < n ==> (#[trigger] keeper_marks@[k] <==> segment_holds(
                    ghost_keeper@,
                    start as int,
                    end as int,
                    k + 1,
                )),
            queue@ == refill_queue(donor@.take(i as int), ghost_keeper@, start as int, end as int),
            forall|q: int| 0 <= q < queue@.len() ==> 1 <= #[trigger] queue@[q] <= n,
        decreases n - i,
    {
        proof {
            assert(1 <= donor@[i as int] <= n);
            assert(donor@.take(i + 1int).drop_last() =~= donor@.take(i as int));
            assert(donor@.take(i + 1int).last() == donor@[i as int]);
        }
        let v = donor[i];
        if !keeper_marks[(v as u64 - 1) as usize] {
            queue.push(v);
        }
        i = i + 1;
    }
    proof {
        assert(donor@.take(n as int) =~= donor@);
    }
    queue
}

impl OrderedCrossover {
    /// Recombines two permutations in place.  The closed segment
    /// `[start, end]` of each parent is kept; the positions before and
    /// after it are refilled, front to back, with the other parent's
    /// genes that the segment does not hold, in their order of
    /// appearance (positions the queue cannot reach keep their gene).
    pub fn apply_ox(parent1: &mut Vec<i64>, parent2: &mut Vec<i64>, start: usize, end: usize)
        requires
            old(parent1)@.len() == old(parent2)@.len(),
            start <= end,
            end < old(parent1)@.len(),
            crate::population::is_permutation(old(parent1)@, old(parent1)@.len()),
            crate::population::is_permutation(old(parent2)@, old(parent2)@.len()),
        ensures
            final(parent1)@.len() == old(parent1)@.len(),
            final(parent2)@.len() == old(parent2)@.len(),
            forall|i: int|
                start <= i <= end ==> #[trigger] final(parent1)@[i] == old(parent1)@[i] && final(parent2)@[i] == old(parent2)@[i],
            forall|p: int|
                0 <= p < final(parent1)@.len() && !(start <= p <= end) ==> #[trigger] final(parent1)@[p] == (if outside_index(start as int, end as int, p) < refill_queue(
                    old(parent2)@,
                    old(parent1)@,
                    start as int,
                    end as int,
                ).len() {
                    refill_queue(old(parent2)@, old(parent1)@, start as int, end as int)[outside_index(start as int, end as int, p)]
                } else {
                    old(parent1)@[p]
                }),
            forall|p: int|
                0 <= p < final(parent2)@.len() && !(start <= p <= end) ==> #[trigger] final(parent2)@[p] == (if outside_index(start as int, end as int, p) < refill_queue(
                    old(parent1)@,
                    old(parent2)@,
                    start as int,
                    end as int,
                ).len() {
                    refill_queue(old(parent1)@, old(parent2)@, start as int, end as int)[outside_index(start as int, end as int, p)]
                } else {
                    old(parent2)@[p]
                }),
            forall|i: int|
                0 <= i < final(parent1)@.len() ==> 1 <= #[trigger] final(parent1)@[i] <= final(parent1)@.len(),
            forall|i: int|
                0 <= i < final(parent2)@.len() ==> 1 <= #[trigger] final(parent2)@[i] <= final(parent2)@.len(),
    {
        let n = parent1.len();
        let ghost o1 = old(parent1)@;
        let ghost o2 = old(parent2)@;
        let marks1 = segment_marks(parent1, start, end);
        let marks2 = segment_marks(parent2, start, end);
        let queue1 = collect_refill(parent2, &marks1, Ghost(parent1@), start, end);
        let queue2 = collect_refill(parent1, &marks2, Ghost(parent2@), start, end);
        let ghost q1seq = queue1@;
        let ghost q2seq = queue2@;
        let mut q1: usize = 0;
        let mut q2: usize = 0;
        let mut i: usize = 0;
        while i < n
            invariant
                i <= n,
                start <= end < n,
                parent1@.len() == n as nat,
                parent2@.len() == n as nat,
                o1.len() == n as nat,
                o2.len() == n as nat,
                q1seq == refill_queue(o2, o1, start as int, end as int),
                q2seq == refill_queue(o1, o2, start as int, end as int),
                queue1@ == q1seq,
                queue2@ == q2seq,
                forall|q: int| 0 <= q < q1seq.len() ==> 1 <= #[trigger] q1seq[q] <= n,
                forall|q: int| 0 <= q < q2seq.len() ==> 1 <= #[trigger] q2seq[q] <= n,
                q1 as int == (if outside_count(start as int, end as int, i as int)
                    <= q1seq.len() as int {
                    outside_count(start as int, end as int, i as int)
                } else {
                    q1seq.len() as int
                }),
                q2 as int == (if outside_count(start as int, end as int, i as int)
                    <= q2seq.len() as int {
                    outside_count(start as int, end as int, i as int)
                } else {
                    q2seq.len() as int
                }),
                forall|p: int| start <= p <= end ==> #[trigger] parent1@[p] == o1[p],
                forall|p: int| start <= p <= end ==> #[trigger] parent2@[p] == o2[p],
                forall|p: int|
                    0 <= p < n && !(start <= p <= end) && p >= i ==> #[trigger] parent1@[p]
                        == o1[p],
                forall|p: int|
                    0 <= p < n && !(start <= p <= end) && p >= i ==> #[trigger] parent2@[p]
                        == o2[p],
                forall|p: int|
                    0 <= p < n && !(start <= p <= end) && p < i ==> #[trigger] parent1@[p] == (if
                    outside_index(start as int, end as int, p) < q1seq.len() {
                        q1seq[outside_index(start as int, end as int, p)]
                    } else {
                        o1[p]
                    }),
                forall|p: int|
                    0 <= p < n && !(start <= p <= end) && p < i ==> #[trigger] parent2@[p] == (if
                    outside_index(start as int, end as int, p) < q2seq.len() {
                        q2seq[outside_index(start as int, end as int, p)]
                    } else {
                        o2[p]
                    }),
                forall|p: int| 0 <= p < n ==> 1 <= #[trigger] parent1@[p] <= n,
                forall|p: int| 0 <= p < n ==> 1 <= #[trigger] parent2@[p] <= n,
            decreases n - i,
        {
            if i < start || i > end {
                if q1 < queue1.len() {
                    parent1.set(i, queue1[q1]);
                    q1 = q1 + 1;
                }
                if q2 < queue2.len() {
                    parent2.set(i, queue2[q2]);
                    q2 = q2 + 1;
                }
            }
            i = i + 1;
        }
    }
}

impl Crossover<IntPerm> for OrderedCrossover {
    open spec fn pair_ok(&self, p1: IntPerm, p2: IntPerm, c1: IntPerm, c2: IntPerm) -> bool {
        &&& c1.genome().len() == p1.genome().len()
        &&& c2.genome().len() == p2.genome().len()
        &&& forall|i: int|
            0 <= i < c1.genome().len() ==> 1 <= #[trigger] c1.genome()[i] <= c1.genome().len()
        &&& forall|i: int|
            0 <= i < c2.genome().len() ==> 1 <= #[trigger] c2.genome()[i] <= c2.genome().len()
    }

    fn crossover(&self, population: &mut Vec<IntPerm>) {
        let ghost pre = population@;
        let n = population.len();
        let half = n / 2;
        let mut k: usize = 0;
        while k < half
            invariant
                k <= half,
                population@.len() == n as nat,
                population@.len() == pre.len(),
                half == n / 2,
                forall|i: int|
                    0 <= i < pre.len() ==> #[trigger] population@[i].genome().len()
                        == pre[i].genome().len() && population@[i].fitness_of()
                        == pre[i].fitness_of(),
                forall|i: int|
                    #![trigger population@[i]]
                    0 <= i && i + 1 < 2 * k && i % 2 == 0 ==> ((population@[i] == pre[i]
                        && population@[i + 1] == pre[i + 1]) || self.pair_ok(
                        pre[i],
                        pre[i + 1],
                        population@[i],
                        population@[i + 1],
                    )),
                forall|i: int| 2 * k <= i < pre.len() ==> #[trigger] population@[i] == pre[i],
            decreases half - k,
        {
            let a = 2 * k;
            let b = 2 * k + 1;
            proof {
                assert(population@[a as int].genome().len() == pre[a as int].genome().len());
                assert(population@[b as int].genome().len() == pre[b as int].genome().len());
            }
            if coin(self.crossover_rate) && population[a].chromosome.len()
                == population[b].chromosome.len() && population[a].chromosome.len() >= 1
                && check_permutation(&population[a].chromosome) && check_permutation(
                &population[b].chromosome,
            ) {
                let len = population[a].chromosome.len();
                let start = rand_index(len);
                let end = start + rand_index(len - start);
                let mut ca = copy_genes(&population[a].chromosome);
                let mut cb = copy_genes(&population[b].chromosome);
                Self::apply_ox(&mut ca, &mut cb, start, end);
                let fa = population[a].fitness;
                let fb = population[b].fitness;
                population.set(a, IntPerm { chromosome: ca, fitness: fa });
                population.set(b, IntPerm { chromosome: cb, fitness: fb });
                proof {
                    assert(self.pair_ok(
                        pre[a as int],
                        pre[b as int],
                        population@[a as int],
                        population@[b as int],
                    ));
                    assert(population@[a as int].genome().len() == pre[a as int].genome().len());
                    assert(population@[b as int].genome().len() == pre[b as int].genome().len());
                    assert(population@[a as int].fitness_of() == pre[a as int].fitness_of());
                    assert(population@[b as int].fitness_of() == pre[b as int].fitness_of());
                }
            } else {
                proof {
                    assert(population@[a as int] == pre[a as int]);
                    assert(population@[b as int] == pre[b as int]);
                }
            }
            k = k + 1;
        }
        proof {
            if pre.len() % 2 == 1 {
                assert(population@[pre.len() - 1] == pre[pre.len() - 1]);
            }
        }
    }
}

} // verus!

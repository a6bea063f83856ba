//! Cycle crossover (CX) for permutation genomes: the cycle through
//! position-correspondence starting at position zero is kept, and every
//! position outside that cycle is exchanged between the parents.

use vstd::prelude::*;

use crate::crossover::{genes_kept_or_swapped, Crossover};
use crate::population::{copy_genes, Individual, IntPerm};
use crate::rng::coin;
use crate::utils::check_permutation;

verus! {

/// Follows the cycle induced by index correspondence between two parents
/// and swaps only the positions in its complement.
#[derive(Clone)]
pub struct CXCrossover {
    /// The probability of recombining a pair, in ten-thousandths.
    pub crossover_rate: u32,
}

impl Default for CXCrossover {
    /// Recombines four pairs in five.
    fn default() -> (r: Self)
        ensures
            r.crossover_rate == 8000,
    {
        CXCrossover { crossover_rate: 8000 }
    }
}

/// The position a value-to-position table assigns to the value `v`.
pub open spec fn pos_of(inv1: Seq<usize>, v: i64) -> int
    recommends
        1 <= v <= inv1.len(),
{
    inv1[v - 1] as int
}

/// The position in `parent1` that holds the value `parent2` has at `i`,
/// read off the value-to-position table of `parent1`.
pub open spec fn successor(inv1: Seq<usize>, parent2: Seq<i64>, i: int) -> int
    recommends
        0 <= i < parent2.len(),
        1 <= parent2[i] <= inv1.len(),
{
    pos_of(inv1, parent2[i])
}

/// The position of the value `v` in `parent`.
pub open spec fn position_of(parent: Seq<i64>, v: i64) -> int {
    choose|j: int| 0 <= j < parent.len() && parent[j] == v
}

/// One step of the index correspondence the two parents induce: the
/// position in `parent1` that holds `parent2`'s gene at `i`.
pub open spec fn cycle_step(parent1: Seq<i64>, parent2: Seq<i64>, i: int) -> int {
    position_of(parent1, parent2[i])
}

/// The position the correspondence walk from position zero reaches
/// after `k` steps.
#[verifier::opaque]
pub open spec fn cycle_walk(parent1: Seq<i64>, parent2: Seq<i64>, k: nat) -> int
    decreases k,
{
    if k == 0 {
        0
    } else {
        cycle_step(parent1, parent2, cycle_walk(parent1, parent2, (k - 1) as nat))
    }
}

/// Whether position `p` lies on the index cycle through position zero
/// (the walk closes within `parent1.len()` steps, which this bound
/// covers).
pub open spec fn on_zero_cycle(parent1: Seq<i64>, parent2: Seq<i64>, p: int) -> bool {
    exists|k: nat| k <= parent1.len() && cycle_walk(parent1, parent2, k) == p
}

/// The position-table walk, `k` steps from position zero.
#[verifier::opaque]
pub open spec fn walk(inv1: Seq<usize>, parent2: Seq<i64>, k: nat) -> int
    decreases k,
{
    if k == 0 {
        0
    } else {
        successor(inv1, parent2, walk(inv1, parent2, (k - 1) as nat))
    }
}

/// The marked set is closed under the parents' successor map, in both
/// directions.
#[verifier::opaque]
pub open spec fn marks_closed_both_ways(inv1: Seq<usize>, parent2: Seq<i64>, marks: Seq<bool>) -> bool {
    &&& forall|q: int|
        #![trigger marks[q]]
        0 <= q < marks.len() && marks[q] ==> marks[successor(inv1, parent2, q)]
    &&& forall|q: int|
        #![trigger marks[q]]
        0 <= q < marks.len() && marks[q] ==> exists|k: int|
            0 <= k < marks.len() && #[trigger] marks[k] && successor(inv1, parent2, k) == q
}

/// The marked set is exactly the set of positions the walk from zero
/// reaches within `marks.len()` steps.
#[verifier::opaque]
pub open spec fn marks_are_zero_cycle(inv1: Seq<usize>, parent2: Seq<i64>, marks: Seq<bool>) -> bool {
    forall|p: int|
        #![trigger marks[p]]
        0 <= p < marks.len() ==> (marks[p] <==> exists|k: nat|
            k <= marks.len() && (#[trigger] walk(inv1, parent2, k)) == p)
}

/// The successor map of two permutations is injective on positions.
proof fn lemma_successor_injective(inv1: Seq<usize>, parent1: Seq<i64>, parent2: Seq<i64>, a: int, b: int)
    requires
        parent1.len() == parent2.len(),
        inv1.len() == parent1.len(),
        crate::population::is_permutation(parent1, parent1.len()),
        crate::population::is_permutation(parent2, parent2.len()),
        forall|v: i64| 1 <= v <= parent1.len() ==> parent1[#[trigger] pos_of(inv1, v)] == v,
        0 <= a < parent1.len(),
        0 <= b < parent1.len(),
        successor(inv1, parent2, a) == successor(inv1, parent2, b),
    ensures
        a == b,
{
    let n = parent1.len() as int;
    assert(1 <= parent2[a] <= n);
    assert(1 <= parent2[b] <= n);
    assert(parent1[pos_of(inv1, parent2[a])] == parent2[a]);
    assert(parent1[pos_of(inv1, parent2[b])] == parent2[b]);
    assert(parent2[a] == parent2[b]);
}

/// Equal walk positions pull back step by step, so an equal pair yields
/// a return to zero after the difference of the two step counts.
proof fn lemma_walk_back(inv1: Seq<usize>, parent1: Seq<i64>, parent2: Seq<i64>, a: nat, b: nat)
    requires
        parent1.len() == parent2.len(),
        parent1.len() >= 1,
        inv1.len() == parent1.len(),
        crate::population::is_permutation(parent1, parent1.len()),
        crate::population::is_permutation(parent2, parent2.len()),
        forall|q: int| 0 <= q < inv1.len() ==> #[trigger] inv1[q] < inv1.len(),
        forall|v: i64| 1 <= v <= parent1.len() ==> parent1[#[trigger] pos_of(inv1, v)] == v,
        a <= b,
        walk(inv1, parent2, a) == walk(inv1, parent2, b),
    ensures
        walk(inv1, parent2, (b - a) as nat) == 0,
    decreases a,
{
    reveal_with_fuel(walk, 2);
    if a == 0 {
    } else {
        lemma_walks_agree(inv1, parent1, parent2, (a - 1) as nat);
        lemma_walks_agree(inv1, parent1, parent2, (b - 1) as nat);
        lemma_successor_injective(
            inv1,
            parent1,
            parent2,
            walk(inv1, parent2, (a - 1) as nat),
            walk(inv1, parent2, (b - 1) as nat),
        );
        lemma_walk_back(inv1, parent1, parent2, (a - 1) as nat, (b - 1) as nat);
    }
}

/// The walk of two permutations returns to position zero within
/// `parent1.len()` steps.
proof fn lemma_walk_closes(inv1: Seq<usize>, parent1: Seq<i64>, parent2: Seq<i64>) -> (c: nat)
    requires
        parent1.len() == parent2.len(),
        parent1.len() >= 1,
        inv1.len() == parent1.len(),
        crate::population::is_permutation(parent1, parent1.len()),
        crate::population::is_permutation(parent2, parent2.len()),
        forall|q: int| 0 <= q < inv1.len() ==> #[trigger] inv1[q] < inv1.len(),
        forall|v: i64| 1 <= v <= parent1.len() ==> parent1[#[trigger] pos_of(inv1, v)] == v,
    ensures
        1 <= c <= parent1.len(),
        walk(inv1, parent2, c) == 0,
{
    broadcast use vstd::set::group_set_axioms;

    let n = parent1.len() as int;
    assert forall|k: nat| k <= n + 1 implies 0 <= #[trigger] walk(inv1, parent2, k) < n by {
        lemma_walks_agree(inv1, parent1, parent2, k);
    }
    let positions = Seq::new((n + 1) as nat, |k: int| walk(inv1, parent2, k as nat));
    if positions.no_duplicates() {
        positions.unique_seq_to_set();
        let universe = vstd::set_lib::set_int_range(0, n);
        vstd::set_lib::lemma_int_range(0, n);
        assert(positions.to_set().subset_of(universe)) by {
            assert forall|x: int| positions.to_set().contains(x) implies universe.contains(x) by {
                let k = choose|k: int| 0 <= k < positions.len() && positions[k] == x;
                assert(positions[k] == walk(inv1, parent2, k as nat));
            }
        }
        vstd::set_lib::lemma_len_subset(positions.to_set(), universe);
        assert(false);
    }
    let (a, b) = choose|a: int, b: int|
        0 <= a < positions.len() && 0 <= b < positions.len() && a != b && (#[trigger] positions[a])
            == #[trigger] positions[b];
    let lo = if a < b {
        a
    } else {
        b
    };
    let hi = if a < b {
        b
    } else {
        a
    };
    assert(walk(inv1, parent2, lo as nat) == walk(inv1, parent2, hi as nat));
    lemma_walk_back(inv1, parent1, parent2, lo as nat, hi as nat);
    (hi - lo) as nat
}

/// Once the walk returns to zero after `period` steps, it repeats with
/// that period.
proof fn lemma_walk_periodic(inv1: Seq<usize>, parent2: Seq<i64>, period: nat, m: nat)
    requires
        period >= 1,
        walk(inv1, parent2, period) == 0,
    ensures
        walk(inv1, parent2, m + period) == walk(inv1, parent2, m),
    decreases m,
{
    reveal_with_fuel(walk, 2);
    if m == 0 {
        assert(walk(inv1, parent2, period) == walk(inv1, parent2, 0));
    } else {
        lemma_walk_periodic(inv1, parent2, period, (m - 1) as nat);
        assert(walk(inv1, parent2, m + period) == successor(
            inv1,
            parent2,
            walk(inv1, parent2, (m + period - 1) as nat),
        ));
    }
}

/// Every position the walk ever reaches is reached within the period.
proof fn lemma_walk_reaches_early(inv1: Seq<usize>, parent2: Seq<i64>, period: nat, k: nat) -> (
    k2: nat)
    requires
        period >= 1,
        walk(inv1, parent2, period) == 0,
    ensures
        k2 < period,
        walk(inv1, parent2, k2) == walk(inv1, parent2, k),
    decreases k,
{
    reveal_with_fuel(walk, 1);
    if k < period {
        k
    } else {
        lemma_walk_periodic(inv1, parent2, period, (k - period) as nat);
        let k2 = lemma_walk_reaches_early(inv1, parent2, period, (k - period) as nat);
        assert(walk(inv1, parent2, k2) == walk(inv1, parent2, k));
        k2
    }
}

/// On permutations, the table walk and the parent-level correspondence
/// walk agree step for step.
proof fn lemma_walks_agree(inv1: Seq<usize>, parent1: Seq<i64>, parent2: Seq<i64>, k: nat)
    requires
        parent1.len() == parent2.len(),
        parent1.len() >= 1,
        inv1.len() == parent1.len(),
        crate::population::is_permutation(parent1, parent1.len()),
        crate::population::is_permutation(parent2, parent2.len()),
        forall|q: int| 0 <= q < inv1.len() ==> #[trigger] inv1[q] < inv1.len(),
        forall|v: i64| 1 <= v <= parent1.len() ==> parent1[#[trigger] pos_of(inv1, v)] == v,
    ensures
        walk(inv1, parent2, k) == cycle_walk(parent1, parent2, k),
        0 <= walk(inv1, parent2, k) < parent1.len(),
    decreases k,
{
    reveal_with_fuel(walk, 2);
    reveal_with_fuel(cycle_walk, 2);
    let n = parent1.len() as int;
    if k == 0 {
    } else {
        lemma_walks_agree(inv1, parent1, parent2, (k - 1) as nat);
        let i = walk(inv1, parent2, (k - 1) as nat);
        let v = parent2[i];
        assert(1 <= v <= n);
        assert(parent1[pos_of(inv1, v)] == v);
        assert(0 <= pos_of(inv1, v) < n);
        assert(parent1[position_of(parent1, v)] == v && 0 <= position_of(parent1, v) < n) by {
            assert(parent1[pos_of(inv1, v)] == v);
        }
        assert(pos_of(inv1, v) == position_of(parent1, v));
    }
}

/// The value-to-position table of a permutation: entry `v - 1` holds the
/// position of value `v`.
fn value_positions(parent: &Vec<i64>) -> (inv1: Vec<usize>)
    requires
        parent@.len() >= 1,
        crate::population::is_permutation(parent@, parent@.len()),
    ensures
        inv1@.len() == parent@.len(),
        forall|k: int| 0 <= k < inv1@.len() ==> #[trigger] inv1@[k] < parent@.len(),
        forall|v: i64| 1 <= v <= parent@.len() ==> parent@[#[trigger] pos_of(inv1@, v)] == v,
{
    let n = parent.len();
    let mut inv1: Vec<usize> = vec![0; n];
    let mut i: usize = 0;
    while i < n
        invariant
            i <= n,
            parent@.len() == n as nat,
            inv1@.len() == n as nat,
            n >= 1,
            crate::population::is_permutation(parent@, n as nat),
            forall|k: int| 0 <= k < n ==> #[trigger] inv1@[k] < n,
            forall|j: int| 0 <= j < i ==> inv1@[parent@[j] - 1] == j,
        decreases n - i,
    {
        let value = parent[i];
        proof {
            assert(1 <= parent@[i as int] <= n);
            assert(forall|j: int| 0 <= j < i ==> parent@[j] != parent@[i as int]);
        }
        inv1.set((value as u64 - 1) as usize, i);
        i = i + 1;
    }
    proof {
        crate::population::lemma_permutation_complete(parent@, n as nat);
        assert forall|v: i64| 1 <= v <= n implies parent@[#[trigger] pos_of(inv1@, v)] == v by {
            assert(parent@.contains(v));
            let j = choose|j: int| 0 <= j < parent@.len() && parent@[j] == v;
            assert(inv1@[parent@[j] - 1] == j);
        }
    }
    inv1
}

/// Walks the cycle through position zero and marks its positions.  When
/// the walk closes (it always does for permutations), the marked set is
/// closed under the successor map in both directions.
#[verifier::rlimit(100)]
fn mark_cycle(inv1: &Vec<usize>, parent2: &Vec<i64>) -> (r: (Vec<bool>, bool))
    requires
        inv1@.len() == parent2@.len(),
        parent2@.len() >= 1,
        crate::population::is_permutation(parent2@, parent2@.len()),
        forall|k: int| 0 <= k < inv1@.len() ==> #[trigger] inv1@[k] < inv1@.len(),
    ensures
        r.0@.len() == parent2@.len(),
        r.0@[0],
        r.1 ==> marks_closed_both_ways(inv1@, parent2@, r.0@),
        r.1 ==> marks_are_zero_cycle(inv1@, parent2@, r.0@),
        !r.1 ==> forall|k: nat|
            1 <= k <= parent2@.len() ==> #[trigger] walk(inv1@, parent2@, k) != 0,
{
    let n = parent2.len();
    let mut in_cycle: Vec<bool> = vec![false; n];
    in_cycle.set(0, true);
    proof {
        assert(1 <= parent2@[0] <= n);
    }
    let mut pos: usize = inv1[(parent2[0] as u64 - 1) as usize];
    let ghost mut steps: nat = 1nat;
    proof {
        assert(in_cycle@[0]);
        assert(successor(inv1@, parent2@, 0) == pos);
        assert(forall|q: int| 0 < q < n ==> !(#[trigger] in_cycle@[q]));
        reveal_with_fuel(walk, 2);
        assert(walk(inv1@, parent2@, 1nat) == successor(inv1@, parent2@, walk(inv1@, parent2@, 0nat)));
        assert(walk(inv1@, parent2@, 0nat) == 0);
    }
    let mut fuel: usize = n;
    while pos != 0 && fuel > 0
        invariant
            pos < n,
            fuel <= n,
            n >= 1,
            parent2@.len() == n as nat,
            inv1@.len() == n as nat,
            in_cycle@.len() == n as nat,
            crate::population::is_permutation(parent2@, n as nat),
            forall|k: int| 0 <= k < n ==> #[trigger] inv1@[k] < n,
            in_cycle@[0],
            forall|q: int|
                #![trigger in_cycle@[q]]
                0 <= q < n && in_cycle@[q] ==> (in_cycle@[successor(inv1@, parent2@, q)]
                    || successor(inv1@, parent2@, q) == pos),
            forall|q: int|
                #![trigger in_cycle@[q]]
                0 <= q < n && in_cycle@[q] && q != 0 ==> exists|k: int|
                    0 <= k < n && #[trigger] in_cycle@[k] && successor(inv1@, parent2@, k) == q,
            exists|k: int|
                0 <= k < n && #[trigger] in_cycle@[k] && successor(inv1@, parent2@, k) == pos,
            steps >= 1,
            steps == n - fuel + 1,
            pos as int == walk(inv1@, parent2@, steps),
            forall|p: int|
                #![trigger in_cycle@[p]]
                0 <= p < n ==> (in_cycle@[p] <==> exists|k: nat|
                    k < steps && (#[trigger] walk(inv1@, parent2@, k)) == p),
            forall|k: nat| 1 <= k < steps ==> #[trigger] walk(inv1@, parent2@, k) != 0,
        decreases fuel,
    {
        let ghost before = in_cycle@;
        let ghost entry_pos = pos as int;
        in_cycle.set(pos, true);
        proof {
            assert(1 <= parent2@[pos as int] <= n);
        }
        let next = inv1[(parent2[pos] as u64 - 1) as usize];
        proof {
            assert(successor(inv1@, parent2@, entry_pos) == next);
            assert forall|q: int|
                #![trigger in_cycle@[q]]
                0 <= q < n && in_cycle@[q] implies (in_cycle@[successor(inv1@, parent2@, q)]
                || successor(inv1@, parent2@, q) == next) by {
                if before[q] {
                    assert(before[successor(inv1@, parent2@, q)] || successor(inv1@, parent2@, q)
                        == entry_pos);
                } else {
                    assert(q == entry_pos);
                }
            }
            let k0 = choose|k: int|
                0 <= k < n && #[trigger] before[k] && successor(inv1@, parent2@, k) == entry_pos;
            assert forall|q: int|
                #![trigger in_cycle@[q]]
                0 <= q < n && in_cycle@[q] && q != 0 implies exists|k: int|
                0 <= k < n && #[trigger] in_cycle@[k] && successor(inv1@, parent2@, k) == q by {
                if before[q] {
                    let k1 = choose|k: int|
                        0 <= k < n && #[trigger] before[k] && successor(inv1@, parent2@, k) == q;
                    assert(in_cycle@[k1] && successor(inv1@, parent2@, k1) == q);
                } else {
                    assert(q == entry_pos);
                    assert(in_cycle@[k0] && successor(inv1@, parent2@, k0) == q);
                }
            }
            assert(in_cycle@[entry_pos] && successor(inv1@, parent2@, entry_pos) == next);
            reveal_with_fuel(walk, 1);
            assert(walk(inv1@, parent2@, steps + 1nat) == successor(
                inv1@,
                parent2@,
                walk(inv1@, parent2@, steps),
            ));
            assert forall|p: int|
                #![trigger in_cycle@[p]]
                0 <= p < n implies (in_cycle@[p] <==> exists|k: nat|
                k < steps + 1nat && (#[trigger] walk(inv1@, parent2@, k)) == p) by {
                if before[p] {
                    let k = choose|k: nat|
                        k < steps && (#[trigger] walk(inv1@, parent2@, k)) == p;
                    assert(k < steps + 1nat && walk(inv1@, parent2@, k) == p);
                } else if p == entry_pos {
                    assert(walk(inv1@, parent2@, steps) == p);
                } else {
                    if exists|k: nat| k < steps + 1nat && (#[trigger] walk(inv1@, parent2@, k))
                        == p {
                        let k = choose|k: nat|
                            k < steps + 1nat && (#[trigger] walk(inv1@, parent2@, k)) == p;
                        if k < steps {
                            assert(in_cycle@[p]);
                        } else {
                            assert(k == steps);
                            assert(walk(inv1@, parent2@, steps) == entry_pos);
                            assert(false);
                        }
                    }
                }
            }
            assert(walk(inv1@, parent2@, steps) != 0);
            steps = steps + 1;
        }
        pos = next;
        fuel = fuel - 1;
    }
    let closed = pos == 0;
    proof {
        if closed {
            lemma_marks_closed(inv1@, parent2@, in_cycle@, n as int);
            lemma_marks_cover_walk(inv1@, parent2@, in_cycle@, steps);
            reveal(marks_closed_both_ways);
            assert(marks_closed_both_ways(inv1@, parent2@, in_cycle@));
        } else {
            assert(steps == n + 1);
            assert(walk(inv1@, parent2@, steps) != 0);
            assert forall|k: nat| 1 <= k <= n implies #[trigger] walk(inv1@, parent2@, k)
                != 0 by {
                assert(k < steps);
            }
        }
    }
    (in_cycle, closed)
}

/// At the end of a closed walk, the marked positions are exactly those
/// the walk reaches within the sequence length.
proof fn lemma_marks_cover_walk(
    inv1: Seq<usize>,
    parent2: Seq<i64>,
    marks: Seq<bool>,
    steps: nat,
)
    requires
        marks.len() == parent2.len(),
        parent2.len() >= 1,
        steps >= 1,
        steps <= parent2.len() + 1,
        walk(inv1, parent2, steps) == 0,
        forall|p: int|
            #![trigger marks[p]]
            0 <= p < marks.len() ==> (marks[p] <==> exists|k: nat|
                k < steps && (#[trigger] walk(inv1, parent2, k)) == p),
    ensures
        marks_are_zero_cycle(inv1, parent2, marks),
{
    let n = marks.len();
    assert forall|p: int|
        #![trigger marks[p]]
        0 <= p < n implies (marks[p] <==> exists|k: nat|
        k <= n && (#[trigger] walk(inv1, parent2, k)) == p) by {
        if marks[p] {
            let k = choose|k: nat| k < steps && (#[trigger] walk(inv1, parent2, k)) == p;
            assert(k <= n && walk(inv1, parent2, k) == p);
        } else {
            if exists|k: nat| k <= n && (#[trigger] walk(inv1, parent2, k)) == p {
                let k = choose|k: nat| k <= n && (#[trigger] walk(inv1, parent2, k)) == p;
                let k2 = lemma_walk_reaches_early(inv1, parent2, steps, k);
                assert(walk(inv1, parent2, k2) == p);
                assert(marks[p]);
                assert(false);
            }
        }
    }
    reveal(marks_are_zero_cycle);
}

/// Once the walk has returned to position zero, the marked set is closed
/// under the successor map in both directions.
proof fn lemma_marks_closed(inv1: Seq<usize>, parent2: Seq<i64>, marks: Seq<bool>, n: int)
    requires
        marks.len() == n,
        n >= 1,
        marks[0],
        forall|q: int|
            #![trigger marks[q]]
            0 <= q < n && marks[q] ==> (marks[successor(inv1, parent2, q)] || successor(
                inv1,
                parent2,
                q,
            ) == 0),
        forall|q: int|
            #![trigger marks[q]]
            0 <= q < n && marks[q] && q != 0 ==> exists|k: int|
                0 <= k < n && #[trigger] marks[k] && successor(inv1, parent2, k) == q,
        exists|k: int| 0 <= k < n && #[trigger] marks[k] && successor(inv1, parent2, k) == 0,
    ensures
        forall|q: int|
            #![trigger marks[q]]
            0 <= q < n && marks[q] ==> marks[successor(inv1, parent2, q)],
        forall|q: int|
            #![trigger marks[q]]
            0 <= q < n && marks[q] ==> exists|k: int|
                0 <= k < n && #[trigger] marks[k] && successor(inv1, parent2, k) == q,
{
    let k0 = choose|k: int| 0 <= k < n && #[trigger] marks[k] && successor(inv1, parent2, k) == 0;
    assert forall|q: int|
        #![trigger marks[q]]
        0 <= q < n && marks[q] implies exists|k: int|
        0 <= k < n && #[trigger] marks[k] && successor(inv1, parent2, k) == q by {
        if q == 0 {
            assert(marks[k0] && successor(inv1, parent2, k0) == q);
        }
    }
}

/// The marked set of the table walk is exactly the index cycle through
/// position zero of the two parents.
proof fn lemma_marks_match_cycle(
    inv1: Seq<usize>,
    parent1: Seq<i64>,
    parent2: Seq<i64>,
    marks: Seq<bool>,
)
    requires
        parent1.len() == parent2.len(),
        parent1.len() >= 1,
        inv1.len() == parent1.len(),
        marks.len() == parent1.len(),
        crate::population::is_permutation(parent1, parent1.len()),
        crate::population::is_permutation(parent2, parent2.len()),
        forall|q: int| 0 <= q < inv1.len() ==> #[trigger] inv1[q] < inv1.len(),
        forall|v: i64| 1 <= v <= parent1.len() ==> parent1[#[trigger] pos_of(inv1, v)] == v,
        marks_are_zero_cycle(inv1, parent2, marks),
    ensures
        forall|p: int|
            #![trigger marks[p]]
            0 <= p < marks.len() ==> (marks[p] <==> on_zero_cycle(parent1, parent2, p)),
{
    reveal(marks_are_zero_cycle);
    let n = parent1.len();
    assert forall|k: nat| k <= n implies #[trigger] walk(inv1, parent2, k) == cycle_walk(
        parent1,
        parent2,
        k,
    ) by {
        lemma_walks_agree(inv1, parent1, parent2, k);
    }
    assert forall|p: int|
        #![trigger marks[p]]
        0 <= p < marks.len() implies (marks[p] <==> on_zero_cycle(parent1, parent2, p)) by {
        if marks[p] {
            let k = choose|k: nat| k <= n && (#[trigger] walk(inv1, parent2, k)) == p;
            assert(cycle_walk(parent1, parent2, k) == p);
            assert(on_zero_cycle(parent1, parent2, p));
        }
        if on_zero_cycle(parent1, parent2, p) {
            let k = choose|k: nat|
                k <= parent1.len() && (#[trigger] cycle_walk(parent1, parent2, k)) == p;
            assert(walk(inv1, parent2, k) == p);
        }
    }
}

/// Mixing two permutations position-wise, keeping a mark set that is
/// closed under the parents' value correspondence, yields permutations.
proof fn lemma_cx_children_valid(
    o1: Seq<i64>,
    o2: Seq<i64>,
    inv1: Seq<usize>,
    marks: Seq<bool>,
    new1: Seq<i64>,
    new2: Seq<i64>,
    n: int,
)
    requires
        o1.len() == n,
        o2.len() == n,
        new1.len() == n,
        new2.len() == n,
        marks.len() == n,
        inv1.len() == n,
        n >= 1,
        crate::population::is_permutation(o1, n as nat),
        crate::population::is_permutation(o2, n as nat),
        forall|k: int| 0 <= k < n ==> #[trigger] inv1[k] < n,
        forall|v: i64| 1 <= v <= n ==> o1[#[trigger] pos_of(inv1, v)] == v,
        marks_closed_both_ways(inv1, o2, marks),
        marks_are_zero_cycle(inv1, o2, marks),
        forall|p: int|
            #![trigger new1[p]]
            0 <= p < n ==> (new1[p] == if marks[p] {
                o1[p]
            } else {
                o2[p]
            }),
        forall|p: int|
            #![trigger new2[p]]
            0 <= p < n ==> (new2[p] == if marks[p] {
                o2[p]
            } else {
                o1[p]
            }),
    ensures
        crate::population::is_permutation(new1, n as nat),
        crate::population::is_permutation(new2, n as nat),
        forall|p: int|
            0 <= p < n ==> #[trigger] new1[p] == (if on_zero_cycle(o1, o2, p) {
                o1[p]
            } else {
                o2[p]
            }),
        forall|p: int|
            0 <= p < n ==> #[trigger] new2[p] == (if on_zero_cycle(o1, o2, p) {
                o2[p]
            } else {
                o1[p]
            }),
{
    reveal(marks_closed_both_ways);
    lemma_marks_match_cycle(inv1, o1, o2, marks);
    assert forall|p: int| 0 <= p < n implies #[trigger] new1[p] == (if on_zero_cycle(o1, o2, p) {
        o1[p]
    } else {
        o2[p]
    }) by {
        assert(marks[p] <==> on_zero_cycle(o1, o2, p));
    }
    assert forall|p: int| 0 <= p < n implies #[trigger] new2[p] == (if on_zero_cycle(o1, o2, p) {
        o2[p]
    } else {
        o1[p]
    }) by {
        assert(marks[p] <==> on_zero_cycle(o1, o2, p));
    }
    assert forall|q: int|
        #![trigger marks[q]]
        0 <= q < n && marks[q] implies 0 <= successor(inv1, o2, q) < n && o2[q] == o1[successor(
        inv1,
        o2,
        q,
    )] by {
        assert(1 <= o2[q] <= n);
        assert(o1[pos_of(inv1, o2[q])] == o2[q]);
    }
    assert forall|a: int, b: int|
        0 <= a < n && 0 <= b < n && a != b implies new1[a] != new1[b] by {
        if marks[a] && !marks[b] {
            let k = choose|k: int| 0 <= k < n && #[trigger] marks[k] && successor(inv1, o2, k) == a;
            assert(o2[k] == o1[a]);
            if o1[a] == o2[b] {
                assert(o2[k] == o2[b]);
                assert(k == b);
                assert(false);
            }
        } else if !marks[a] && marks[b] {
            let k = choose|k: int| 0 <= k < n && #[trigger] marks[k] && successor(inv1, o2, k) == b;
            assert(o2[k] == o1[b]);
            if o2[a] == o1[b] {
                assert(o2[k] == o2[a]);
                assert(k == a);
                assert(false);
            }
        }
    }
    assert forall|a: int, b: int|
        0 <= a < n && 0 <= b < n && a != b implies new2[a] != new2[b] by {
        if marks[a] && !marks[b] {
            let sa = successor(inv1, o2, a);
            assert(marks[sa]);
            assert(o2[a] == o1[sa]);
            if o2[a] == o1[b] {
                assert(o1[sa] == o1[b]);
                assert(sa == b);
                assert(false);
            }
        } else if !marks[a] && marks[b] {
            let sb = successor(inv1, o2, b);
            assert(marks[sb]);
            assert(o2[b] == o1[sb]);
            if o1[a] == o2[b] {
                assert(o1[sb] == o1[a]);
                assert(sb == a);
                assert(false);
            }
        }
    }
    assert(new1.no_duplicates());
    assert(new2.no_duplicates());
    assert forall|p: int| 0 <= p < n implies 1 <= #[trigger] new1[p] <= n by {
        if marks[p] {
            assert(new1[p] == o1[p]);
        } else {
            assert(new1[p] == o2[p]);
        }
    }
    assert forall|p: int| 0 <= p < n implies 1 <= #[trigger] new2[p] <= n by {
        if marks[p] {
            assert(new2[p] == o2[p]);
        } else {
            assert(new2[p] == o1[p]);
        }
    }
}

/// Exchanges the genes at every position off the marked cycle, leaving
/// the cycle positions in place; the children are the cycle-mix of the
/// parents and remain permutations.
#[verifier::rlimit(100)]
fn swap_complement(
    parent1: &mut Vec<i64>,
    parent2: &mut Vec<i64>,
    in_cycle: &Vec<bool>,
    inv1: Ghost<Seq<usize>>,
)
    requires
        old(parent1)@.len() == old(parent2)@.len(),
        old(parent1)@.len() >= 1,
        in_cycle@.len() == old(parent1)@.len(),
        inv1@.len() == old(parent1)@.len(),
        crate::population::is_permutation(old(parent1)@, old(parent1)@.len()),
        crate::population::is_permutation(old(parent2)@, old(parent2)@.len()),
        forall|q: int| 0 <= q < inv1@.len() ==> #[trigger] inv1@[q] < inv1@.len(),
        forall|v: i64|
            1 <= v <= old(parent1)@.len() ==> old(parent1)@[#[trigger] pos_of(inv1@, v)] == v,
        marks_closed_both_ways(inv1@, old(parent2)@, in_cycle@),
        marks_are_zero_cycle(inv1@, old(parent2)@, in_cycle@),
    ensures
        genes_kept_or_swapped(old(parent1)@, old(parent2)@, final(parent1)@, final(parent2)@),
        crate::population::is_permutation(final(parent1)@, old(parent1)@.len()),
        crate::population::is_permutation(final(parent2)@, old(parent2)@.len()),
        forall|p: int|
            0 <= p < final(parent1)@.len() ==> #[trigger] final(parent1)@[p] == (if on_zero_cycle(
                old(parent1)@,
                old(parent2)@,
                p,
            ) {
                old(parent1)@[p]
            } else {
                old(parent2)@[p]
            }),
        forall|p: int|
            0 <= p < final(parent2)@.len() ==> #[trigger] final(parent2)@[p] == (if on_zero_cycle(
                old(parent1)@,
                old(parent2)@,
                p,
            ) {
                old(parent2)@[p]
            } else {
                old(parent1)@[p]
            }),
{
    let n = parent1.len();
    let ghost o1 = parent1@;
    let ghost o2 = parent2@;
    let ghost marked = in_cycle@;
    let mut j: usize = 0;
    while j < n
        invariant
            j <= n,
            parent1@.len() == n as nat,
            parent2@.len() == n as nat,
            in_cycle@ == marked,
            in_cycle@.len() == n as nat,
            o1.len() == n as nat,
            o2.len() == n as nat,
            forall|p: int|
                #![trigger parent1@[p]]
                0 <= p < j ==> (parent1@[p] == if marked[p] {
                    o1[p]
                } else {
                    o2[p]
                }),
            forall|p: int|
                #![trigger parent2@[p]]
                0 <= p < j ==> (parent2@[p] == if marked[p] {
                    o2[p]
                } else {
                    o1[p]
                }),
            forall|p: int| j <= p < n ==> #[trigger] parent1@[p] == o1[p],
            forall|p: int| j <= p < n ==> #[trigger] parent2@[p] == o2[p],
        decreases n - j,
    {
        if !in_cycle[j] {
            let t1 = parent1[j];
            let t2 = parent2[j];
            parent1.set(j, t2);
            parent2.set(j, t1);
        }
        j = j + 1;
    }
    proof {
        lemma_cx_children_valid(o1, o2, inv1@, marked, parent1@, parent2@, n as int);
    }
}

impl CXCrossover {
    /// Recombines two permutations in place.  Every position keeps the
    /// two parents' genes or exchanges them; the positions on the cycle
    /// through position zero are the ones kept, so both children remain
    /// permutations.
    #[verifier::rlimit(100)]
    pub fn cx_crossover(parent1: &mut Vec<i64>, parent2: &mut Vec<i64>)
        requires
            old(parent1)@.len() == old(parent2)@.len(),
            old(parent1)@.len() >= 1,
            crate::population::is_permutation(old(parent1)@, old(parent1)@.len()),
            crate::population::is_permutation(old(parent2)@, old(parent2)@.len()),
        ensures
            genes_kept_or_swapped(old(parent1)@, old(parent2)@, final(parent1)@, final(parent2)@),
            crate::population::is_permutation(final(parent1)@, old(parent1)@.len()),
            crate::population::is_permutation(final(parent2)@, old(parent2)@.len()),
            forall|p: int|
                0 <= p < final(parent1)@.len() ==> #[trigger] final(parent1)@[p] == (if
                on_zero_cycle(old(parent1)@, old(parent2)@, p) {
                    old(parent1)@[p]
                } else {
                    old(parent2)@[p]
                }),
            forall|p: int|
                0 <= p < final(parent2)@.len() ==> #[trigger] final(parent2)@[p] == (if
                on_zero_cycle(old(parent1)@, old(parent2)@, p) {
                    old(parent2)@[p]
                } else {
                    old(parent1)@[p]
                }),
    {
        let inv1 = value_positions(parent1);
        let (in_cycle, closed) = mark_cycle(&inv1, parent2);
        if !closed {
            proof {
                let c = lemma_walk_closes(inv1@, parent1@, parent2@);
                assert(walk(inv1@, parent2@, c) != 0);
                assert(false);
            }
            return ;
        }
        swap_complement(parent1, parent2, &in_cycle, Ghost(inv1@));
    }
}

impl Crossover<IntPerm> for CXCrossover {
    open spec fn pair_ok(&self, p1: IntPerm, p2: IntPerm, c1: IntPerm, c2: IntPerm) -> bool {
        &&& genes_kept_or_swapped(p1.genome(), p2.genome(), c1.genome(), c2.genome())
        &&& (crate::population::is_permutation(p1.genome(), p1.genome().len())
            && crate::population::is_permutation(p2.genome(), p2.genome().len())) ==> (
        crate::population::is_permutation(c1.genome(), c1.genome().len())
            && crate::population::is_permutation(c2.genome(), c2.genome().len()))
    }

    fn crossover(&self, population: &mut Vec<IntPerm>) {
        let ghost pre = population@;
        let n = population.len();
        let half = n / 2;
        let mut k: usize = 0;
        while k < half
            invariant
                k <= half,
                population@.len() == n as nat,
                population@.len() == pre.len(),
                half == n / 2,
                forall|i: int|
                    0 <= i < pre.len() ==> #[trigger] population@[i].genome().len()
                        == pre[i].genome().len() && population@[i].fitness_of()
                        == pre[i].fitness_of(),
                forall|i: int|
                    #![trigger population@[i]]
                    0 <= i && i + 1 < 2 * k && i % 2 == 0 ==> ((population@[i] == pre[i]
                        && population@[i + 1] == pre[i + 1]) || self.pair_ok(
                        pre[i],
                        pre[i + 1],
                        population@[i],
                        population@[i + 1],
                    )),
                forall|i: int| 2 * k <= i < pre.len() ==> #[trigger] population@[i] == pre[i],
            decreases half - k,
        {
            let a = 2 * k;
            let b = 2 * k + 1;
            if coin(self.crossover_rate) && population[a].chromosome.len()
                == population[b].chromosome.len() && population[a].chromosome.len() >= 1
                && check_permutation(&population[a].chromosome) && check_permutation(
                &population[b].chromosome,
            ) {
                let mut ca = copy_genes(&population[a].chromosome);
                let mut cb = copy_genes(&population[b].chromosome);
                Self::cx_crossover(&mut ca, &mut cb);
                let fa = population[a].fitness;
                let fb = population[b].fitness;
                population.set(a, IntPerm { chromosome: ca, fitness: fa });
                population.set(b, IntPerm { chromosome: cb, fitness: fb });
                proof {
                    assert(self.pair_ok(
                        pre[a as int],
                        pre[b as int],
                        population@[a as int],
                        population@[b as int],
                    ));
                }
            } else {
                proof {
                    assert(population@[a as int] == pre[a as int]);
                    assert(population@[b as int] == pre[b as int]);
                }
            }
            k = k + 1;
        }
        proof {
            if pre.len() % 2 == 1 {
                assert(population@[pre.len() - 1] == pre[pre.len() - 1]);
            }
        }
    }
}

} // verus!

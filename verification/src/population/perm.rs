//! Permutation individuals: genomes that reorder the values `1..=dimension`.

use vstd::prelude::*;

use crate::population::{is_permutation, Individual};
use crate::rng::shuffle;

verus! {

/// An individual whose genome is a permutation of `1..=dimension`.
#[derive(Clone, Debug)]
pub struct IntPerm {
    pub chromosome: Vec<i64>,
    pub fitness: i64,
}

/// A sequence with the same elements (as a multiset) as a permutation of
/// `1..=n` is itself a permutation of `1..=n`.  This is the fact that lets
/// every reordering operator preserve permutation validity.
pub proof fn lemma_permutation_from_multiset(a: Seq<i64>, b: Seq<i64>, n: nat)
    requires
        is_permutation(a, n),
        b.to_multiset() == a.to_multiset(),
    ensures
        is_permutation(b, n),
{
    broadcast use vstd::seq_lib::group_to_multiset_ensures;

    assert(b.len() == b.to_multiset().len());
    assert(a.len() == a.to_multiset().len());
    a.lemma_multiset_has_no_duplicates();
    b.lemma_multiset_has_no_duplicates_conv();
    assert forall|i: int| 0 <= i < b.len() implies 1 <= #[trigger] b[i] <= n by {
        assert(b.contains(b[i]));
        assert(b.to_multiset().count(b[i]) > 0);
        assert(a.contains(b[i]));
        let j = choose|j: int| 0 <= j < a.len() && a[j] == b[i];
        assert(1 <= a[j] <= n);
    }
}

impl Individual for IntPerm {
    type Gene = i64;

    type Params = ();

    open spec fn genome(&self) -> Seq<i64> {
        self.chromosome@
    }

    open spec fn fitness_of(&self) -> i64 {
        self.fitness
    }

    open spec fn params_ok(params: ()) -> bool {
        true
    }

    open spec fn generated_ok(dimension: u32, params: (), r: &Self) -> bool {
        is_permutation(r.genome(), dimension as nat)
    }

    fn check_params(params: &()) -> bool {
        true
    }

    fn generate_member(dimension: u32, params: &()) -> (r: Self) {
        let mut member: Vec<i64> = Vec::new();
        let mut i: u32 = 0;
        while i < dimension
            invariant
                i <= dimension,
                member@.len() == i as nat,
                forall|j: int| 0 <= j < member@.len() ==> #[trigger] member@[j] == j + 1,
            decreases dimension - i,
        {
            member.push(i as i64 + 1);
            i = i + 1;
        }
        proof {
            assert(member@.no_duplicates());
            assert(is_permutation(member@, dimension as nat));
        }
        let ghost before = member@;
        shuffle(&mut member);
        proof {
            lemma_permutation_from_multiset(before, member@, dimension as nat);
        }
        Self { chromosome: member, fitness: 0 }
    }

    fn get_fitness(&self) -> i64 {
        self.fitness
    }

    fn set_fitness(&mut self, fitness: i64) {
        self.fitness = fitness;
    }

    fn duplicate(&self) -> (r: Self) {
        Self { chromosome: crate::population::copy_genes(&self.chromosome), fitness: self.fitness }
    }

    fn get_gene(&self, index: usize) -> i64 {
        self.chromosome[index]
    }

    fn set_gene(&mut self, index: usize, value: i64) {
        self.chromosome.set(index, value);
    }

    fn get_chromosome(&self) -> &Vec<i64> {
        &self.chromosome
    }
}

} // verus!

//! The individual/genome abstraction: an individual is an ordered,
//! fixed-length sequence of genes plus a cached fitness score.

mod bin;
mod integer;
mod perm;

pub use bin::Bin;
pub use integer::Int;
pub use perm::IntPerm;
pub use perm::lemma_permutation_from_multiset;

use vstd::prelude::*;

verus! {

/// Tag naming the gene encoding a configuration asks for.
#[derive(Clone, Copy, Debug, PartialEq, Eq, Structural)]
pub enum GeneCod {
    Int,
    IntPerm,
    Bin,
    Real,
}

/// An element-wise copy of a vector of plain gene values.
pub fn copy_genes<G: Copy>(v: &Vec<G>) -> (r: Vec<G>)
    ensures
        r@ == v@,
{
    let mut r: Vec<G> = Vec::new();
    let mut i: usize = 0;
    while i < v.len()
        invariant
            i <= v.len(),
            r@ == v@.subrange(0, i as int),
        decreases v.len() - i,
    {
        r.push(v[i]);
        proof {
            assert(r@ =~= v@.subrange(0, i + 1 as int));
        }
        i = i + 1;
    }
    proof {
        assert(r@ =~= v@);
    }
    r
}

/// Reordering a sequence (keeping its multiset of elements) keeps it free
/// of duplicates.
pub proof fn lemma_multiset_no_duplicates<A>(a: Seq<A>, b: Seq<A>)
    requires
        a.no_duplicates(),
        b.to_multiset() == a.to_multiset(),
    ensures
        b.no_duplicates(),
{
    a.lemma_multiset_has_no_duplicates();
    b.lemma_multiset_has_no_duplicates_conv();
}

/// Every element of a reordered sequence is an element of the original,
/// and the two have the same length.
pub proof fn lemma_multiset_membership<A>(a: Seq<A>, b: Seq<A>)
    requires
        b.to_multiset() == a.to_multiset(),
    ensures
        b.len() == a.len(),
        forall|i: int| 0 <= i < b.len() ==> a.contains(#[trigger] b[i]),
{
    broadcast use vstd::seq_lib::group_to_multiset_ensures;

    assert(b.len() == b.to_multiset().len());
    assert(a.len() == a.to_multiset().len());
    assert forall|i: int| 0 <= i < b.len() implies a.contains(#[trigger] b[i]) by {
        assert(b.contains(b[i]));
        assert(b.to_multiset().count(b[i]) > 0);
    }
}

/// Exchanging the elements at two positions keeps the multiset of
/// elements unchanged.
pub proof fn lemma_swap_multiset<A>(s: Seq<A>, i: int, j: int)
    requires
        0 <= i < s.len(),
        0 <= j < s.len(),
    ensures
        s.update(i, s[j]).update(j, s[i]).to_multiset() == s.to_multiset(),
{
    broadcast use vstd::seq_lib::group_to_multiset_ensures;
    broadcast use vstd::multiset::group_multiset_axioms;
    broadcast use vstd::seq_lib::to_multiset_update;

    if i == j {
        assert(s.update(i, s[j]).update(j, s[i]) =~= s);
    } else {
        let t = s.update(i, s[j]);
        assert(t[j] == s[j]);
        assert(t.to_multiset() == s.to_multiset().remove(s[i]).insert(s[j]));
        assert(t.update(j, s[i]).to_multiset() == t.to_multiset().remove(t[j]).insert(s[i]));
        assert(s.to_multiset().contains(s[i]));
        assert(t.update(j, s[i]).to_multiset() =~= s.to_multiset());
    }
}

/// `s` holds each of the values `1..=n` exactly once.
pub open spec fn is_permutation(s: Seq<i64>, n: nat) -> bool {
    &&& s.len() == n
    &&& forall|i: int| 0 <= i < s.len() ==> 1 <= #[trigger] s[i] <= n
    &&& s.no_duplicates()
}

/// A permutation of `1..=n` attains every value of `1..=n`: its `n`
/// distinct values fill the whole `n`-element range.
pub proof fn lemma_permutation_complete(s: Seq<i64>, n: nat)
    requires
        is_permutation(s, n),
    ensures
        forall|v: i64| 1 <= v <= n ==> s.contains(v),
{
    broadcast use vstd::set::group_set_axioms;

    let si = s.map_values(|x: i64| x as int);
    assert(si.no_duplicates()) by {
        assert forall|i: int, j: int|
            0 <= i < si.len() && 0 <= j < si.len() && i != j implies si[i] != si[j] by {
            assert(s[i] != s[j]);
        }
    }
    si.unique_seq_to_set();
    let universe = vstd::set_lib::set_int_range(1, n as int + 1);
    vstd::set_lib::lemma_int_range(1, n as int + 1);
    assert(si.to_set().subset_of(universe)) by {
        assert forall|x: int| si.to_set().contains(x) implies universe.contains(x) by {
            let k = choose|k: int| 0 <= k < si.len() && si[k] == x;
            assert(1 <= s[k] <= n);
        }
    }
    vstd::set_lib::lemma_len_subset(si.to_set(), universe);
    vstd::set_lib::lemma_subset_equality(si.to_set(), universe);
    assert forall|v: i64| 1 <= v <= n implies s.contains(v) by {
        assert(universe.contains(v as int));
        assert(si.to_set().contains(v as int));
        assert(si.contains(v as int));
        let k = choose|k: int| 0 <= k < si.len() && si[k] == v as int;
        assert(s[k] == v);
    }
}

/// Contract every genome representation implements: an ordered gene
/// sequence (the `genome`) and a cached scalar fitness.  Individuals are
/// value types: `duplicate` yields an equal, independent copy.
pub trait Individual: Sized {
    type Gene;

    type Params;

    /// The ordered gene sequence of this individual.  Implementations
    /// define it; an unspecified genome promises nothing.
    open spec fn genome(&self) -> Seq<Self::Gene> {
        vstd::pervasive::arbitrary()
    }

    /// The cached fitness, as set by the last `set_fitness`.
    /// Implementations define it; an unspecified fitness promises
    /// nothing.
    open spec fn fitness_of(&self) -> i64 {
        vstd::pervasive::arbitrary()
    }

    /// The parameter values `generate_member` accepts.  Implementations
    /// define it; an unspecified predicate promises nothing.
    open spec fn params_ok(params: Self::Params) -> bool {
        vstd::pervasive::arbitrary()
    }

    /// What, beyond its length, holds of a freshly generated genome
    /// (genes within range, a valid permutation, ...).  Implementations
    /// define it; an unspecified predicate promises nothing.
    open spec fn generated_ok(dimension: u32, params: Self::Params, r: &Self) -> bool {
        vstd::pervasive::arbitrary()
    }

    /// Runtime test for `params_ok`, so a builder can reject bad
    /// parameters before any member is generated.
    fn check_params(params: &Self::Params) -> (r: bool)
        ensures
            r == Self::params_ok(*params),
    ;

    /// Produces a random individual with a genome of length `dimension`
    /// and a cached fitness of zero.
    fn generate_member(dimension: u32, params: &Self::Params) -> (r: Self)
        requires
            Self::params_ok(*params),
        ensures
            r.genome().len() == dimension as nat,
            r.fitness_of() == 0,
            Self::generated_ok(dimension, *params, &r),
    ;

    fn get_fitness(&self) -> (r: i64)
        ensures
            r == self.fitness_of(),
    ;

    fn set_fitness(&mut self, fitness: i64)
        ensures
            final(self).genome() == old(self).genome(),
            final(self).fitness_of() == fitness,
            forall|d: u32, p: Self::Params|
                #[trigger] Self::generated_ok(d, p, final(self)) == Self::generated_ok(
                    d,
                    p,
                    old(self),
                ),
    ;

    /// An equal, independent copy of this individual.
    fn duplicate(&self) -> (r: Self)
        ensures
            r.genome() == self.genome(),
            r.fitness_of() == self.fitness_of(),
    ;

    fn get_gene(&self, index: usize) -> (r: Self::Gene)
        requires
            index < self.genome().len(),
        ensures
            r == self.genome()[index as int],
    ;

    fn set_gene(&mut self, index: usize, value: Self::Gene)
        requires
            index < old(self).genome().len(),
        ensures
            final(self).genome() == old(self).genome().update(index as int, value),
            final(self).fitness_of() == old(self).fitness_of(),
    ;

    fn get_chromosome(&self) -> (r: &Vec<Self::Gene>)
        ensures
            r@ == self.genome(),
    ;
}

} // verus!

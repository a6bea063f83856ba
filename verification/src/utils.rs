//! Small helpers shared by the operators: random index sampling, sorting,
//! and genome conversions.

use vstd::prelude::*;

use crate::population::{lemma_multiset_membership, lemma_multiset_no_duplicates,
    lemma_swap_multiset};
use crate::rng::shuffle;

verus! {

/// A uniformly random list of `min(k, n)` distinct indices below `n`.
pub fn random_distinct_indices(n: usize, k: usize) -> (r: Vec<usize>)
    requires
        n >= 1,
    ensures
        r@.len() == if k < n {
            k as nat
        } else {
            n as nat
        },
        forall|i: int| 0 <= i < r@.len() ==> #[trigger] r@[i] < n,
        r@.no_duplicates(),
{
    let mut indices: Vec<usize> = Vec::new();
    let mut i: usize = 0;
    while i < n
        invariant
            i <= n,
            indices@.len() == i as nat,
            forall|j: int| 0 <= j < i ==> #[trigger] indices@[j] == j,
        decreases n - i,
    {
        indices.push(i);
        i = i + 1;
    }
    proof {
        assert(indices@.no_duplicates());
    }
    let ghost before = indices@;
    shuffle(&mut indices);
    proof {
        lemma_multiset_no_duplicates(before, indices@);
        lemma_multiset_membership(before, indices@);
        assert forall|j: int| 0 <= j < indices@.len() implies #[trigger] indices@[j] < n by {
            assert(before.contains(indices@[j]));
        }
    }
    let take = if k < n {
        k
    } else {
        n
    };
    let mut r: Vec<usize> = Vec::new();
    let mut t: usize = 0;
    while t < take
        invariant
            t <= take,
            take <= indices@.len(),
            r@ == indices@.subrange(0, t as int),
            forall|j: int| 0 <= j < indices@.len() ==> #[trigger] indices@[j] < n,
            indices@.no_duplicates(),
        decreases take - t,
    {
        r.push(indices[t]);
        proof {
            assert(r@ =~= indices@.subrange(0, t + 1int));
        }
        t = t + 1;
    }
    proof {
        assert(forall|i2: int| 0 <= i2 < r@.len() ==> r@[i2] == indices@.subrange(
            0,
            take as int,
        )[i2]);
        assert(r@.no_duplicates()) by {
            assert(forall|x: int, y: int|
                0 <= x < y < r@.len() ==> r@[x] == indices@[x] && r@[y] == indices@[y]);
        }
    }
    r
}

/// The number a bit string encodes, least-significant bit first.
pub open spec fn bits_value(s: Seq<bool>) -> nat
    decreases s.len(),
{
    if s.len() == 0 {
        0
    } else {
        bits_value(s.drop_last()) + if s.last() {
            vstd::arithmetic::power2::pow2((s.len() - 1) as nat)
        } else {
            0
        }
    }
}

/// A bit string of length `n` encodes a number below `pow2(n)`.
pub proof fn lemma_bits_value_bound(s: Seq<bool>)
    ensures
        bits_value(s) < vstd::arithmetic::power2::pow2(s.len()),
    decreases s.len(),
{
    vstd::arithmetic::power2::lemma_pow2_pos(s.len());
    if s.len() > 0 {
        lemma_bits_value_bound(s.drop_last());
        vstd::arithmetic::power2::lemma_pow2_unfold(s.len());
    }
}

/// Reads a bit string as a number, the first gene being the lowest bit.
pub fn convert_bin(vec: &Vec<bool>) -> (r: u64)
    requires
        vec@.len() <= 64,
    ensures
        r == bits_value(vec@),
{
    proof {
        vstd::arithmetic::power2::lemma2_to64();
        vstd::arithmetic::power2::lemma2_to64_rest();
    }
    let n = vec.len();
    let mut res: u128 = 0;
    let mut power: u128 = 1;
    let mut i: usize = 0;
    while i < n
        invariant
            i <= n,
            n <= 64,
            vec@.len() == n as nat,
            power == vstd::arithmetic::power2::pow2(i as nat),
            power <= 0x1_0000_0000_0000_0000,
            res == bits_value(vec@.take(i as int)),
            res < power,
        decreases n - i,
    {
        proof {
            assert(vec@.take(i + 1int).drop_last() =~= vec@.take(i as int));
            assert(vec@.take(i + 1int).last() == vec@[i as int]);
            vstd::arithmetic::power2::lemma_pow2_unfold(i as nat + 1);
            if i as nat + 1 < 64 {
                vstd::arithmetic::power2::lemma_pow2_strictly_increases(i as nat + 1, 64);
            }
            vstd::arithmetic::power2::lemma2_to64();
            vstd::arithmetic::power2::lemma2_to64_rest();
        }
        if vec[i] {
            res = res + power;
        }
        power = power * 2;
        i = i + 1;
    }
    proof {
        assert(vec@.take(n as int) =~= vec@);
        lemma_bits_value_bound(vec@);
        if (n as nat) < 64 {
            vstd::arithmetic::power2::lemma_pow2_strictly_increases(n as nat, 64);
        }
    }
    res as u64
}

/// Decides whether `v` holds each of `1..=v.len()` exactly once.
pub fn check_permutation(v: &Vec<i64>) -> (r: bool)
    ensures
        r == crate::population::is_permutation(v@, v@.len()),
{
    let n = v.len();
    let mut seen: Vec<bool> = vec![false; n];
    let mut i: usize = 0;
    while i < n
        invariant
            i <= n,
            v@.len() == n as nat,
            seen@.len() == n as nat,
            forall|j: int| 0 <= j < i ==> 1 <= #[trigger] v@[j] <= n,
            forall|j: int, k: int| 0 <= j < k < i ==> v@[j] != v@[k],
            forall|k: int|
                0 <= k < n ==> (#[trigger] seen@[k] <==> exists|j: int|
                    0 <= j < i && v@[j] == k + 1),
        decreases n - i,
    {
        let g = v[i];
        if g < 1 || g as u64 > n as u64 {
            proof {
                assert(!(1 <= v@[i as int] <= n));
            }
            return false;
        }
        let gi = (g as u64 - 1) as usize;
        if seen[gi] {
            proof {
                let j = choose|j: int| 0 <= j < i && v@[j] == gi + 1;
                assert(v@[j] == v@[i as int]);
                assert(!v@.no_duplicates());
            }
            return false;
        }
        seen.set(gi, true);
        proof {
            assert forall|k: int|
                0 <= k < n implies (#[trigger] seen@[k] <==> exists|j: int|
                0 <= j < i + 1 && v@[j] == k + 1) by {
                if k == gi {
                    assert(v@[i as int] == k + 1);
                } else {
                    if seen@[k] {
                        let j = choose|j: int| 0 <= j < i && v@[j] == k + 1;
                        assert(0 <= j < i + 1 && v@[j] == k + 1);
                    }
                    if exists|j: int| 0 <= j < i + 1 && v@[j] == k + 1 {
                        let j = choose|j: int| 0 <= j < i + 1 && v@[j] == k + 1;
                        assert(j != i);
                    }
                }
            }
        }
        i = i + 1;
    }
    proof {
        assert(v@.no_duplicates());
    }
    true
}

/// Sorts a vector of indices into ascending order (selection sort),
/// keeping the multiset of its elements.
pub fn sort_ascending(v: &mut Vec<usize>)
    ensures
        final(v)@.len() == old(v)@.len(),
        forall|a: int, b: int| 0 <= a < b < final(v)@.len() ==> final(v)@[a] <= final(v)@[b],
        final(v)@.to_multiset() == old(v)@.to_multiset(),
{
    let ghost orig = v@;
    let n = v.len();
    let mut i: usize = 0;
    while i < n
        invariant
            i <= n,
            v@.len() == n as nat,
            v@.to_multiset() == orig.to_multiset(),
            forall|a: int, b: int| 0 <= a < b < i ==> v@[a] <= v@[b],
            forall|a: int, b: int| 0 <= a < i && i <= b < n ==> v@[a] <= v@[b],
        decreases n - i,
    {
        let mut m: usize = i;
        let mut j: usize = i + 1;
        while j < n
            invariant
                i <= m < n,
                i < j <= n,
                v@.len() == n as nat,
                forall|b: int| i <= b < j ==> v@[m as int] <= v@[b],
            decreases n - j,
        {
            if v[j] < v[m] {
                m = j;
            }
            j = j + 1;
        }
        let vi = v[i];
        let vm = v[m];
        proof {
            lemma_swap_multiset(v@, i as int, m as int);
        }
        v.set(i, vm);
        v.set(m, vi);
        i = i + 1;
    }
}

} // verus!

//! Uniform crossover for bit strings: each gene is exchanged between the
//! parents on an independent coin toss.

use vstd::prelude::*;

use crate::crossover::{genes_kept_or_swapped, Crossover};
use crate::population::{copy_genes, Bin, Individual};
use crate::rng::coin;

verus! {

/// For each gene, tosses a coin with probability `toss_probability` and
/// exchanges the two parents' genes at that locus when it lands.
#[derive(Clone)]
pub struct UniformCrossover {
    /// The probability of recombining a pair, in ten-thousandths.
    pub crossover_rate: u32,
    /// The per-gene probability of exchanging, in ten-thousandths.
    pub toss_probability: u32,
}

impl Default for UniformCrossover {
    /// Recombines four pairs in five, tossing a fair coin per gene.
    fn default() -> (r: Self)
        ensures
            r.crossover_rate == 8000,
            r.toss_probability == 5000,
    {
        UniformCrossover { crossover_rate: 8000, toss_probability: 5000 }
    }
}

impl UniformCrossover {
    /// Recombines one pair of equal-length chromosomes in place.
    fn recombine<G: Copy>(&self, c1: &mut Vec<G>, c2: &mut Vec<G>)
        requires
            old(c1)@.len() == old(c2)@.len(),
        ensures
            genes_kept_or_swapped(old(c1)@, old(c2)@, final(c1)@, final(c2)@),
    {
        let len = c1.len();
        let mut i: usize = 0;
        while i < len
            invariant
                c1@.len() == len as nat,
                c2@.len() == len as nat,
                old(c1)@.len() == len as nat,
                old(c2)@.len() == len as nat,
                forall|p: int|
                    #![trigger c1@[p]]
                    0 <= p < len ==> (c1@[p] == old(c1)@[p] && c2@[p] == old(c2)@[p]) || (c1@[p]
                        == old(c2)@[p] && c2@[p] == old(c1)@[p]),
            decreases len - i,
        {
            if coin(self.toss_probability) {
                let t1 = c1[i];
                let t2 = c2[i];
                c1.set(i, t2);
                c2.set(i, t1);
            }
            i = i + 1;
        }
    }
}

impl Crossover<Bin> for UniformCrossover {
    open spec fn pair_ok(&self, p1: Bin, p2: Bin, c1: Bin, c2: Bin) -> bool {
        genes_kept_or_swapped(p1.genome(), p2.genome(), c1.genome(), c2.genome())
    }

    fn crossover(&self, population: &mut Vec<Bin>) {
        let ghost pre = population@;
        let n = population.len();
        let half = n / 2;
        let mut k: usize = 0;
        while k < half
            invariant
                k <= half,
                population@.len() == n as nat,
                population@.len() == pre.len(),
                half == n / 2,
                forall|i: int|
                    0 <= i < pre.len() ==> #[trigger] population@[i].genome().len()
                        == pre[i].genome().len() && population@[i].fitness_of()
                        == pre[i].fitness_of(),
                forall|i: int|
                    #![trigger population@[i]]
                    0 <= i && i + 1 < 2 * k && i % 2 == 0 ==> ((population@[i] == pre[i]
                        && population@[i + 1] == pre[i + 1]) || self.pair_ok(
                        pre[i],
                        pre[i + 1],
                        population@[i],
                        population@[i + 1],
                    )),
                forall|i: int| 2 * k <= i < pre.len() ==> #[trigger] population@[i] == pre[i],
            decreases half - k,
        {
            let a = 2 * k;
            let b = 2 * k + 1;
            proof {
                assert(population@[a as int].genome().len() == pre[a as int].genome().len());
                assert(population@[b as int].genome().len() == pre[b as int].genome().len());
            }
            if coin(self.crossover_rate) && population[a].chromosome.len()
                == population[b].chromosome.len() {
                let mut ca = copy_genes(&population[a].chromosome);
                let mut cb = copy_genes(&population[b].chromosome);
                self.recombine(&mut ca, &mut cb);
                let fa = population[a].fitness;
                let fb = population[b].fitness;
                population.set(a, Bin { chromosome: ca, fitness: fa });
                population.set(b, Bin { chromosome: cb, fitness: fb });
                proof {
                    assert(self.pair_ok(
                        pre[a as int],
                        pre[b as int],
                        population@[a as int],
                        population@[b as int],
                    ));
                    assert(population@[a as int].genome().len() == pre[a as int].genome().len());
                    assert(population@[b as int].genome().len() == pre[b as int].genome().len());
                    assert(population@[a as int].fitness_of() == pre[a as int].fitness_of());
                    assert(population@[b as int].fitness_of() == pre[b as int].fitness_of());
                }
            } else {
                proof {
                    assert(population@[a as int] == pre[a as int]);
                    assert(population@[b as int] == pre[b as int]);
                }
            }
            k = k + 1;
        }
        proof {
            if pre.len() % 2 == 1 {
                assert(population@[pre.len() - 1] == pre[pre.len() - 1]);
            }
        }
    }
}

} // verus!

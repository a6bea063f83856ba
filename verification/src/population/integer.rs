//! Integer-vector individuals with a per-individual gene range.

use vstd::prelude::*;

use crate::population::Individual;
use crate::rng::rand_i64_inclusive;

verus! {

/// An individual whose genes are integers drawn from a closed range.
#[derive(Debug)]
pub struct Int {
    pub chromosome: Vec<i64>,
    pub fitness: i64,
    pub range: (i64, i64),
}

impl Individual for Int {
    type Gene = i64;

    type Params = (i64, i64);

    open spec fn genome(&self) -> Seq<i64> {
        self.chromosome@
    }

    open spec fn fitness_of(&self) -> i64 {
        self.fitness
    }

    open spec fn params_ok(params: (i64, i64)) -> bool {
        params.0 <= params.1
    }

    open spec fn generated_ok(dimension: u32, params: (i64, i64), r: &Self) -> bool {
        &&& r.range == params
        &&& forall|i: int|
            0 <= i < r.genome().len() ==> params.0 <= #[trigger] r.genome()[i] <= params.1
    }

    fn check_params(params: &(i64, i64)) -> bool {
        params.0 <= params.1
    }

    fn generate_member(dimension: u32, params: &(i64, i64)) -> (r: Self) {
        let mut chromosome: Vec<i64> = Vec::new();
        let mut i: u32 = 0;
        while i < dimension
            invariant
                i <= dimension,
                chromosome@.len() == i as nat,
                params.0 <= params.1,
                forall|j: int|
                    0 <= j < chromosome@.len() ==> params.0 <= #[trigger] chromosome@[j]
                        <= params.1,
            decreases dimension - i,
        {
            chromosome.push(rand_i64_inclusive(params.0, params.1));
            i = i + 1;
        }
        Self { chromosome, fitness: 0, range: (params.0, params.1) }
    }

    fn get_fitness(&self) -> i64 {
        self.fitness
    }

    fn set_fitness(&mut self, fitness: i64) {
        self.fitness = fitness;
    }

    fn duplicate(&self) -> (r: Self) {
        Self {
            chromosome: crate::population::copy_genes(&self.chromosome),
            fitness: self.fitness,
            range: self.range,
        }
    }

    fn get_gene(&self, index: usize) -> i64 {
        self.chromosome[index]
    }

    fn set_gene(&mut self, index: usize, value: i64) {
        self.chromosome.set(index, value);
    }

    fn get_chromosome(&self) -> &Vec<i64> {
        &self.chromosome
    }
}

} // verus!

//! Bit-string individuals.

use vstd::prelude::*;

use crate::population::Individual;
use crate::rng::rand_bool;

verus! {

/// An individual whose genes are booleans.
#[derive(Clone, Debug)]
pub struct Bin {
    pub chromosome: Vec<bool>,
    pub fitness: i64,
}

impl Bin {
    /// Wraps a ready-made bit string, with a cached fitness of zero.
    pub fn new(chromosome: Vec<bool>) -> (r: Self)
        ensures
            r.genome() == chromosome@,
            r.fitness_of() == 0,
    {
        Self { chromosome, fitness: 0 }
    }
}

impl Individual for Bin {
    type Gene = bool;

    type Params = ();

    open spec fn genome(&self) -> Seq<bool> {
        self.chromosome@
    }

    open spec fn fitness_of(&self) -> i64 {
        self.fitness
    }

    open spec fn params_ok(params: ()) -> bool {
        true
    }

    open spec fn generated_ok(dimension: u32, params: (), r: &Self) -> bool {
        true
    }

    fn check_params(params: &()) -> bool {
        true
    }

    fn generate_member(dimension: u32, params: &()) -> (r: Self) {
        let mut chromosome: Vec<bool> = Vec::new();
        let mut i: u32 = 0;
        while i < dimension
            invariant
                i <= dimension,
                chromosome@.len() == i as nat,
            decreases dimension - i,
        {
            chromosome.push(rand_bool());
            i = i + 1;
        }
        Self { chromosome, fitness: 0 }
    }

    fn get_fitness(&self) -> i64 {
        self.fitness
    }

    fn set_fitness(&mut self, fitness: i64) {
        self.fitness = fitness;
    }

    fn duplicate(&self) -> (r: Self) {
        Self { chromosome: crate::population::copy_genes(&self.chromosome), fitness: self.fitness }
    }

    fn get_gene(&self, index: usize) -> bool {
        self.chromosome[index]
    }

    fn set_gene(&mut self, index: usize, value: bool) {
        self.chromosome.set(index, value);
    }

    fn get_chromosome(&self) -> &Vec<bool> {
        &self.chromosome
    }
}

} // verus!

//! A mutation that leaves the pool unchanged.

use vstd::prelude::*;

use crate::mutation::Mutation;
use crate::population::Individual;

verus! {

/// Performs no mutation at all.
#[derive(Clone)]
pub struct DoNothingMutation;

impl<T: Individual> Mutation<T> for DoNothingMutation {
    open spec fn mutated_ok(&self, pre: T, post: T) -> bool {
        post == pre
    }

    fn mutate(&self, population: &mut Vec<T>) {
    }
}

} // verus!

//! The experiment runner: executes many independent evolutions built from
//! one builder, and aggregates their fitness trajectories.

use vstd::prelude::*;

use crate::crossover::Crossover;
use crate::evolution::StopCondition;
use crate::evolution_builder::EvolutionBuilder;
use crate::fitness::Fitness;
use crate::mutation::Mutation;
use crate::population::{copy_genes, Individual};
use crate::selection::Selection;

verus! {

/// What one completed run leaves behind: its wall time, its per-
/// generation fitness curves, its generation count and its best member.
pub struct ExperimentResult<T> {
    pub total_time: u128,
    pub average_fitnesses: Vec<i64>,
    pub best_fitnesses: Vec<i64>,
    pub iterations: u32,
    pub best_found: T,
}

/// A result is well formed when its curves cover exactly its generations
/// (at least one), and its best member carries the final best fitness.
pub open spec fn result_wf<T: Individual>(r: ExperimentResult<T>) -> bool {
    &&& r.iterations >= 1
    &&& r.best_fitnesses@.len() == r.iterations as nat
    &&& r.average_fitnesses@.len() == r.iterations as nat
    &&& r.best_found.fitness_of() == r.best_fitnesses@.last()
}

/// A curve read at generation `g`, padded forward with its final value
/// once the run has converged.
pub open spec fn padded(curve: Seq<i64>, g: int) -> int {
    if g < curve.len() {
        curve[g] as int
    } else {
        curve[curve.len() - 1] as int
    }
}

/// The sum over all runs of their best-fitness curves read at `g`.
pub open spec fn padded_best_sum<T: Individual>(results: Seq<ExperimentResult<T>>, g: int) -> int
    decreases results.len(),
{
    if results.len() == 0 {
        0
    } else {
        padded_best_sum(results.drop_last(), g) + padded(results.last().best_fitnesses@, g)
    }
}

/// The sum over all runs of their average-fitness curves read at `g`.
pub open spec fn padded_avg_sum<T: Individual>(results: Seq<ExperimentResult<T>>, g: int) -> int
    decreases results.len(),
{
    if results.len() == 0 {
        0
    } else {
        padded_avg_sum(results.drop_last(), g) + padded(results.last().average_fitnesses@, g)
    }
}

/// The sum over all runs of their generation counts.
pub open spec fn iterations_sum<T: Individual>(results: Seq<ExperimentResult<T>>) -> int
    decreases results.len(),
{
    if results.len() == 0 {
        0
    } else {
        iterations_sum(results.drop_last()) + results.last().iterations
    }
}

/// The sum over all runs of their final best fitness.
pub open spec fn score_sum<T: Individual>(results: Seq<ExperimentResult<T>>) -> int
    decreases results.len(),
{
    if results.len() == 0 {
        0
    } else {
        score_sum(results.drop_last()) + results.last().best_found.fitness_of()
    }
}

/// What `experiment_digest` reports: the mean generation count and the
/// mean final score over all runs (both floored).
pub struct ExperimentDigest {
    pub average_iterations: i64,
    pub average_score: i64,
}

/// The greatest generation count among the runs.
pub open spec fn max_iterations<T: Individual>(results: Seq<ExperimentResult<T>>) -> int
    decreases results.len(),
{
    if results.len() == 0 {
        0
    } else if results.last().iterations >= max_iterations(results.drop_last()) {
        results.last().iterations as int
    } else {
        max_iterations(results.drop_last())
    }
}

/// The sums of generation counts and of final scores stay within range.
proof fn lemma_digest_sum_bounds<T: Individual>(results: Seq<ExperimentResult<T>>)
    ensures
        0 <= iterations_sum(results),
        iterations_sum(results) <= (results.len() as int) * 0xffff_ffff,
        -(results.len() as int) * 0x8000_0000_0000_0000 <= score_sum(results),
        score_sum(results) <= (results.len() as int) * 0x7fff_ffff_ffff_ffff,
    decreases results.len(),
{
    if results.len() > 0 {
        lemma_digest_sum_bounds(results.drop_last());
    }
}

/// Builds one engine from the builder, runs it to completion, and
/// collects its curves, generation count, wall time and best member.
pub fn run_single<T, F, S, C, M, P>(builder: &EvolutionBuilder<T, F, S, C, M, P>) -> (r:
    ExperimentResult<T>) where
    T: Individual + Send,
    T::Params: Sync + Copy,
    F: Fitness<T> + Sync + Clone,
    S: Selection<T> + Clone,
    C: Crossover<T> + Clone,
    M: Mutation<T> + Clone,
    P: StopCondition + Clone,

    requires
        builder.runnable(),
    ensures
        result_wf(r),
{
    let mut evolution = match builder.build() {
        Ok(e) => e,
        Err(_) => vstd::pervasive::unreached(),
    };
    evolution.run();
    let best_found = evolution.current_best().duplicate();
    let best_fitnesses = copy_genes(&evolution.metrics.best_fitnesses);
    let average_fitnesses = copy_genes(&evolution.metrics.avg_fitnesses);
    let total_time = evolution.metrics.total_time();
    let iterations = evolution.metrics.iterations;
    ExperimentResult { total_time, average_fitnesses, best_fitnesses, iterations, best_found }
}

/// Relies on rayon's `into_par_iter().map(..).collect()` over `0..runs`:
/// the result gathers exactly one element per run, each produced by the
/// verified `run_single`, whose contract gives every clause below.
#[verifier::external_body]
pub fn par_run_experiments<T, F, S, C, M, P>(
    builder: &EvolutionBuilder<T, F, S, C, M, P>,
    runs: u32,
) -> (r: Vec<ExperimentResult<T>>) where
    T: Individual + Send,
    T::Params: Sync + Copy,
    F: Fitness<T> + Sync + Clone,
    S: Selection<T> + Sync + Clone,
    C: Crossover<T> + Sync + Clone,
    M: Mutation<T> + Sync + Clone,
    P: StopCondition + Sync + Clone,

    requires
        builder.runnable(),
    ensures
        r@.len() == runs as nat,
        forall|i: int| 0 <= i < r@.len() ==> result_wf(#[trigger] r@[i]),
{
    rayon::iter::ParallelIterator::collect(
        rayon::iter::ParallelIterator::map(
            rayon::iter::IntoParallelIterator::into_par_iter(0..runs),
            |_| run_single(builder),
        ),
    )
}

/// Runs `runs` independent evolutions, each built fresh from the builder,
/// and aggregates their curves and times.
pub struct ExperimentRunner<T: Individual, F: Fitness<T>, S: Selection<T>, C: Crossover<T>, M: Mutation<T>, P: StopCondition> {
    pub runs: u32,
    pub name: String,
    pub evolution_builder: EvolutionBuilder<T, F, S, C, M, P>,
    pub experiment_results: Vec<ExperimentResult<T>>,
    pub total_time: u128,
    pub mean_best_fitnesses: Vec<i64>,
    pub mean_average_fitnesses: Vec<i64>,
}

impl<
    T: Individual + Send,
    F: Fitness<T> + Sync + Clone,
    S: Selection<T> + Sync + Clone,
    C: Crossover<T> + Sync + Clone,
    M: Mutation<T> + Sync + Clone,
    P: StopCondition + Sync + Clone,
> ExperimentRunner<T, F, S, C, M, P> where T::Params: Sync + Copy {
    /// A runner with no results yet.
    pub fn new(name: String, runs: u32, evolution_builder: EvolutionBuilder<T, F, S, C, M, P>) -> (
        r: Self)
        ensures
            r.runs == runs,
            r.evolution_builder == evolution_builder,
            r.experiment_results@.len() == 0,
            r.total_time == 0,
    {
        Self {
            name,
            runs,
            evolution_builder,
            experiment_results: Vec::new(),
            total_time: 0,
            mean_best_fitnesses: Vec::new(),
            mean_average_fitnesses: Vec::new(),
        }
    }

    /// Runs `runs` fresh engines to completion (in parallel), appends
    /// their results, and recomputes the aggregated curves: each run's
    /// curve is padded forward with its own final value up to the longest
    /// run, then averaged point-wise over all recorded runs.
    pub fn run(&mut self)
        requires
            old(self).evolution_builder.runnable(),
            old(self).runs >= 1,
            old(self).experiment_results@.len() + old(self).runs < 0x1_0000_0000,
            forall|i: int|
                0 <= i < old(self).experiment_results@.len() ==> result_wf(
                    #[trigger] old(self).experiment_results@[i],
                ),
        ensures
            final(self).experiment_results@.len() == old(self).experiment_results@.len() + old(self).runs,
            forall|i: int|
                0 <= i < final(self).experiment_results@.len() ==> result_wf(
                    #[trigger] final(self).experiment_results@[i],
                ),
            final(self).mean_best_fitnesses@.len() == max_iterations(
                final(self).experiment_results@,
            ),
            final(self).mean_average_fitnesses@.len() == max_iterations(
                final(self).experiment_results@,
            ),
            forall|g: int|
                0 <= g < final(self).mean_best_fitnesses@.len() ==> #[trigger] final(self).mean_best_fitnesses@[g] == padded_best_sum(final(self).experiment_results@, g)
                    / (final(self).experiment_results@.len() as int),
            forall|g: int|
                0 <= g < final(self).mean_average_fitnesses@.len() ==> #[trigger] final(self).mean_average_fitnesses@[g] == padded_avg_sum(final(self).experiment_results@, g)
                    / (final(self).experiment_results@.len() as int),
            final(self).runs == old(self).runs,
            final(self).evolution_builder == old(self).evolution_builder,
    {
        let mut results = par_run_experiments(&self.evolution_builder, self.runs);
        let ghost fresh = results@;
        proof {
            assert(results@ =~= fresh.subrange(0, fresh.len() as int));
        }
        while results.len() > 0
            invariant
                results@.len() <= fresh.len(),
                results@ =~= fresh.subrange(fresh.len() - results@.len(), fresh.len() as int),
                self.experiment_results@.len() == old(self).experiment_results@.len() + (
                fresh.len() - results@.len()),
                forall|i: int|
                    0 <= i < self.experiment_results@.len() ==> result_wf(
                        #[trigger] self.experiment_results@[i],
                    ),
                forall|i: int| 0 <= i < fresh.len() ==> result_wf(#[trigger] fresh[i]),
                forall|i: int|
                    0 <= i < old(self).experiment_results@.len() ==> result_wf(
                        #[trigger] old(self).experiment_results@[i],
                    ),
                self.runs == old(self).runs,
                self.evolution_builder == old(self).evolution_builder,
            decreases results@.len(),
        {
            let ghost before = results@;
            let next_result = results.remove(0);
            proof {
                assert(before[0] == fresh[fresh.len() - before.len()]);
                assert(next_result == fresh[fresh.len() - results@.len() - 1]);
                assert(results@ =~= fresh.subrange(fresh.len() - results@.len(), fresh.len() as int));
            }
            let elapsed = next_result.total_time;
            self.experiment_results.push(next_result);
            self.total_time = if self.total_time <= u128::MAX - elapsed {
                self.total_time + elapsed
            } else {
                u128::MAX
            };
        }
        let count = self.experiment_results.len();
        let max_iters = self.max_recorded_iterations();
        self.mean_best_fitnesses = Vec::new();
        self.mean_average_fitnesses = Vec::new();
        let mut g: u32 = 0;
        while g < max_iters
            invariant
                g <= max_iters,
                max_iters == max_iterations(self.experiment_results@),
                count == self.experiment_results@.len(),
                count >= 1,
                count < 0x1_0000_0000,
                forall|i: int|
                    0 <= i < self.experiment_results@.len() ==> result_wf(
                        #[trigger] self.experiment_results@[i],
                    ),
                self.mean_best_fitnesses@.len() == g as nat,
                self.mean_average_fitnesses@.len() == g as nat,
                forall|g2: int|
                    0 <= g2 < g ==> #[trigger] self.mean_best_fitnesses@[g2] == padded_best_sum(
                        self.experiment_results@,
                        g2,
                    ) / (count as int),
                forall|g2: int|
                    0 <= g2 < g ==> #[trigger] self.mean_average_fitnesses@[g2] == padded_avg_sum(
                        self.experiment_results@,
                        g2,
                    ) / (count as int),
                self.runs == old(self).runs,
                self.evolution_builder == old(self).evolution_builder,
                self.experiment_results@.len() == old(self).experiment_results@.len() + old(self).runs,
            decreases max_iters - g,
        {
            let (best_sum, avg_sum) = self.padded_sums_at(g);
            let mean_best = crate::evolution::avg_of_sum(best_sum, count as u32);
            let mean_avg = crate::evolution::avg_of_sum(avg_sum, count as u32);
            self.mean_best_fitnesses.push(mean_best);
            self.mean_average_fitnesses.push(mean_avg);
            g = g + 1;
        }
    }

    /// The greatest generation count among the recorded results.
    fn max_recorded_iterations(&self) -> (r: u32)
        ensures
            r == max_iterations(self.experiment_results@),
    {
        let mut r: u32 = 0;
        let mut i: usize = 0;
        let n = self.experiment_results.len();
        while i < n
            invariant
                i <= n,
                self.experiment_results@.len() == n as nat,
                r == max_iterations(self.experiment_results@.take(i as int)),
            decreases n - i,
        {
            proof {
                assert(self.experiment_results@.take(i + 1int).drop_last() =~= self.experiment_results@.take(i as int));
                assert(self.experiment_results@.take(i + 1int).last()
                    == self.experiment_results@[i as int]);
            }
            let it = self.experiment_results[i].iterations;
            if it >= r {
                r = it;
            }
            i = i + 1;
        }
        proof {
            assert(self.experiment_results@.take(n as int) =~= self.experiment_results@);
        }
        r
    }

    /// The padded sums of the best and average curves at generation `g`.
    fn padded_sums_at(&self, g: u32) -> (r: (i128, i128))
        requires
            self.experiment_results@.len() < 0x1_0000_0000,
            forall|i: int|
                0 <= i < self.experiment_results@.len() ==> result_wf(
                    #[trigger] self.experiment_results@[i],
                ),
        ensures
            r.0 == padded_best_sum(self.experiment_results@, g as int),
            r.1 == padded_avg_sum(self.experiment_results@, g as int),
            -(self.experiment_results@.len() as int) * 0x8000_0000_0000_0000 <= r.0,
            r.0 <= (self.experiment_results@.len() as int) * 0x7fff_ffff_ffff_ffff,
            -(self.experiment_results@.len() as int) * 0x8000_0000_0000_0000 <= r.1,
            r.1 <= (self.experiment_results@.len() as int) * 0x7fff_ffff_ffff_ffff,
    {
        let n = self.experiment_results.len();
        let mut best_sum: i128 = 0;
        let mut avg_sum: i128 = 0;
        let mut i: usize = 0;
        while i < n
            invariant
                i <= n,
                self.experiment_results@.len() == n as nat,
                n < 0x1_0000_0000,
                forall|k: int|
                    0 <= k < self.experiment_results@.len() ==> result_wf(
                        #[trigger] self.experiment_results@[k],
                    ),
                best_sum == padded_best_sum(self.experiment_results@.take(i as int), g as int),
                avg_sum == padded_avg_sum(self.experiment_results@.take(i as int), g as int),
                -(i as int) * 0x8000_0000_0000_0000 <= best_sum,
                best_sum <= (i as int) * 0x7fff_ffff_ffff_ffff,
                -(i as int) * 0x8000_0000_0000_0000 <= avg_sum,
                avg_sum <= (i as int) * 0x7fff_ffff_ffff_ffff,
            decreases n - i,
        {
            proof {
                assert(self.experiment_results@.take(i + 1int).drop_last() =~= self.experiment_results@.take(i as int));
                assert(self.experiment_results@.take(i + 1int).last()
                    == self.experiment_results@[i as int]);
                assert(result_wf(self.experiment_results@[i as int]));
            }
            let result = &self.experiment_results[i];
            let gi = g as usize;
            let best_curve = &result.best_fitnesses;
            let avg_curve = &result.average_fitnesses;
            let b = if gi < best_curve.len() {
                best_curve[gi]
            } else {
                best_curve[best_curve.len() - 1]
            };
            let a = if gi < avg_curve.len() {
                avg_curve[gi]
            } else {
                avg_curve[avg_curve.len() - 1]
            };
            best_sum = best_sum + b as i128;
            avg_sum = avg_sum + a as i128;
            i = i + 1;
        }
        proof {
            assert(self.experiment_results@.take(n as int) =~= self.experiment_results@);
        }
        (best_sum, avg_sum)
    }

    /// The mean generation count, and the mean final score, over all
    /// recorded runs (both floored).
    pub fn experiment_digest(&self) -> (r: ExperimentDigest)
        requires
            self.experiment_results@.len() >= 1,
            self.experiment_results@.len() < 0x1_0000_0000,
        ensures
            r.average_iterations == iterations_sum(self.experiment_results@) / (
            self.experiment_results@.len() as int),
            r.average_score == score_sum(self.experiment_results@) / (
            self.experiment_results@.len() as int),
    {
        let n = self.experiment_results.len();
        let mut it_sum: u64 = 0;
        let mut sc_sum: i128 = 0;
        let mut i: usize = 0;
        while i < n
            invariant
                i <= n,
                self.experiment_results@.len() == n as nat,
                n < 0x1_0000_0000,
                it_sum == iterations_sum(self.experiment_results@.take(i as int)),
                it_sum <= (i as int) * 0xffff_ffff,
                sc_sum == score_sum(self.experiment_results@.take(i as int)),
                -(i as int) * 0x8000_0000_0000_0000 <= sc_sum,
                sc_sum <= (i as int) * 0x7fff_ffff_ffff_ffff,
            decreases n - i,
        {
            proof {
                assert(self.experiment_results@.take(i + 1int).drop_last() =~= self.experiment_results@.take(i as int));
                assert(self.experiment_results@.take(i + 1int).last()
                    == self.experiment_results@[i as int]);
            }
            let result = &self.experiment_results[i];
            it_sum = it_sum + result.iterations as u64;
            sc_sum = sc_sum + result.best_found.get_fitness() as i128;
            i = i + 1;
        }
        proof {
            assert(self.experiment_results@.take(n as int) =~= self.experiment_results@);
            lemma_digest_sum_bounds(self.experiment_results@);
            assert(it_sum as int / (n as int) <= 0xffff_ffff) by (nonlinear_arith)
                requires
                    it_sum as int <= (n as int) * 0xffff_ffff,
                    n >= 1,
            ;
        }
        let average_iterations = (it_sum / n as u64) as i64;
        let average_score = crate::evolution::avg_of_sum(sc_sum, n as u32);
        ExperimentDigest { average_iterations, average_score }
    }
}

} // verus!

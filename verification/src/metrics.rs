//! Per-generation metrics: best/average fitness history, the stagnation
//! counter, and wall-clock accumulators for each pipeline phase.

use vstd::prelude::*;

verus! {

/// Relies on std's `Instant`: an opaque reading of a monotonic clock.
#[verifier::external_type_specification]
#[verifier::external_body]
pub struct ExInstant(std::time::Instant);

/// Relies on std's `Instant::now`: a clock reading; nothing is promised of
/// its value.
pub assume_specification [ std::time::Instant::now ]() -> std::time::Instant;

/// Relies on std's `Instant::elapsed`: the time since the reading was
/// taken; nothing is promised of its value.
pub assume_specification [ std::time::Instant::elapsed ](
    instant: &std::time::Instant,
) -> core::time::Duration;

/// Relies on core's `Duration::as_nanos`: the span in whole nanoseconds.
pub assume_specification [ core::time::Duration::as_nanos ](
    duration: &core::time::Duration,
) -> u128;

/// The pipeline phases whose wall-clock time is accumulated separately.
#[derive(Clone, Copy, PartialEq, Eq, Hash, Debug, Structural)]
pub enum Steps {
    Selection,
    Crossover,
    Mutation,
    Fitness,
    Elitism,
}

/// One phase's accumulator: whether the phase is currently being timed,
/// when its current bracket began, and the nanoseconds gathered so far.
pub struct StepTimer {
    pub active: bool,
    pub begun: std::time::Instant,
    pub accum_nanos: u128,
}

impl StepTimer {
    fn new() -> (r: Self)
        ensures
            !r.active,
            r.accum_nanos == 0,
    {
        StepTimer { active: false, begun: std::time::Instant::now(), accum_nanos: 0 }
    }
}

/// Append-only fitness history plus timing accumulators.  `record` is
/// called once per generation boundary; phase timing is bracketed by
/// `step_start`/`step_end`.
pub struct Metrics {
    pub best_fitnesses: Vec<i64>,
    pub avg_fitnesses: Vec<i64>,
    pub iterations: u32,
    pub gens_without_improvement: u32,
    pub start_time: std::time::Instant,
    pub total_nanos: u128,
    pub selection_timer: StepTimer,
    pub crossover_timer: StepTimer,
    pub mutation_timer: StepTimer,
    pub fitness_timer: StepTimer,
    pub elitism_timer: StepTimer,
}

impl Metrics {
    /// The accumulator that belongs to `step`.
    pub open spec fn timer(&self, step: Steps) -> StepTimer {
        match step {
            Steps::Selection => self.selection_timer,
            Steps::Crossover => self.crossover_timer,
            Steps::Mutation => self.mutation_timer,
            Steps::Fitness => self.fitness_timer,
            Steps::Elitism => self.elitism_timer,
        }
    }

    /// Whether `step` is currently being timed.
    pub open spec fn step_active(&self, step: Steps) -> bool {
        self.timer(step).active
    }

    /// The recorded histories stay in lock step with the generation
    /// counter, and stagnation never exceeds the generations seen.
    pub open spec fn wf(&self) -> bool {
        &&& self.best_fitnesses@.len() == self.iterations as nat
        &&& self.avg_fitnesses@.len() == self.iterations as nat
        &&& self.gens_without_improvement <= self.iterations
    }

    /// The history entries and counters, ignoring the timing state.
    pub open spec fn recorded(&self) -> (Seq<i64>, Seq<i64>, u32, u32) {
        (self.best_fitnesses@, self.avg_fitnesses@, self.iterations, self.gens_without_improvement)
    }

    pub fn new() -> (r: Self)
        ensures
            r.wf(),
            r.iterations == 0,
            r.gens_without_improvement == 0,
            r.best_fitnesses@ == Seq::<i64>::empty(),
            r.avg_fitnesses@ == Seq::<i64>::empty(),
            forall|s: Steps| !(#[trigger] r.timer(s)).active,
            forall|s: Steps| (#[trigger] r.timer(s)).accum_nanos == 0,
            r.total_nanos == 0,
    {
        let r = Metrics {
            best_fitnesses: Vec::new(),
            avg_fitnesses: Vec::new(),
            iterations: 0,
            gens_without_improvement: 0,
            start_time: std::time::Instant::now(),
            total_nanos: 0,
            selection_timer: StepTimer::new(),
            crossover_timer: StepTimer::new(),
            mutation_timer: StepTimer::new(),
            fitness_timer: StepTimer::new(),
            elitism_timer: StepTimer::new(),
        };
        proof {
            assert forall|s: Steps| !(#[trigger] r.timer(s)).active && r.timer(s).accum_nanos
                == 0 by {
                match s {
                    Steps::Selection => assert(!r.timer(Steps::Selection).active),
                    Steps::Crossover => assert(!r.timer(Steps::Crossover).active),
                    Steps::Mutation => assert(!r.timer(Steps::Mutation).active),
                    Steps::Fitness => assert(!r.timer(Steps::Fitness).active),
                    Steps::Elitism => assert(!r.timer(Steps::Elitism).active),
                }
            }
        }
        r
    }

    /// Appends one generation's best and average fitness.  The stagnation
    /// counter resets to zero exactly when the best fitness differs from
    /// the previous generation's recorded best, and increments otherwise.
    pub fn record(&mut self, best_fitness: i64, avg_fitness: i64)
        requires
            old(self).wf(),
            old(self).iterations < u32::MAX,
        ensures
            final(self).wf(),
            final(self).best_fitnesses@ == old(self).best_fitnesses@.push(best_fitness),
            final(self).avg_fitnesses@ == old(self).avg_fitnesses@.push(avg_fitness),
            final(self).iterations == old(self).iterations + 1,
            final(self).gens_without_improvement == if old(self).best_fitnesses@.len() > 0
                && old(self).best_fitnesses@.last() == best_fitness {
                old(self).gens_without_improvement + 1int
            } else {
                0int
            },
            forall|s: Steps| final(self).timer(s) == old(self).timer(s),
            final(self).total_nanos == old(self).total_nanos,
    {
        if self.best_fitnesses.len() > 0 && self.best_fitnesses[self.best_fitnesses.len() - 1]
            == best_fitness {
            self.gens_without_improvement = self.gens_without_improvement + 1;
        } else {
            self.gens_without_improvement = 0;
        }

        self.best_fitnesses.push(best_fitness);
        self.avg_fitnesses.push(avg_fitness);
        self.iterations = self.iterations + 1;
    }

    /// Starts the overall wall clock.
    pub fn start_clock(&mut self)
        ensures
            final(self).recorded() == old(self).recorded(),
            final(self).wf() == old(self).wf(),
            forall|s: Steps| final(self).timer(s) == old(self).timer(s),
            final(self).total_nanos == old(self).total_nanos,
    {
        self.start_time = std::time::Instant::now();
    }

    /// Stops the overall wall clock, fixing `total_time`.
    pub fn end_clock(&mut self)
        ensures
            final(self).recorded() == old(self).recorded(),
            final(self).wf() == old(self).wf(),
            forall|s: Steps| final(self).timer(s) == old(self).timer(s),
    {
        self.total_nanos = self.start_time.elapsed().as_nanos();
    }

    /// Begins timing `step`.  Starting a phase that is already being timed
    /// is a programming error, excluded by the precondition.
    pub fn step_start(&mut self, step: Steps)
        requires
            !old(self).step_active(step),
        ensures
            final(self).step_active(step),
            final(self).timer(step).accum_nanos == old(self).timer(step).accum_nanos,
            forall|s: Steps| s != step ==> final(self).timer(s) == old(self).timer(s),
            final(self).recorded() == old(self).recorded(),
            final(self).wf() == old(self).wf(),
            final(self).total_nanos == old(self).total_nanos,
    {
        let timer = StepTimer {
            active: true,
            begun: std::time::Instant::now(),
            accum_nanos: self.step_time(step),
        };
        self.put_timer(step, timer);
    }

    /// Ends timing `step`, adding the elapsed time to its accumulator
    /// (saturating at the accumulator's maximum).  Ending a phase that is
    /// not being timed is a programming error, excluded by the
    /// precondition.
    pub fn step_end(&mut self, step: Steps)
        requires
            old(self).step_active(step),
        ensures
            !final(self).step_active(step),
            final(self).timer(step).accum_nanos >= old(self).timer(step).accum_nanos,
            forall|s: Steps| s != step ==> final(self).timer(s) == old(self).timer(s),
            final(self).recorded() == old(self).recorded(),
            final(self).wf() == old(self).wf(),
            final(self).total_nanos == old(self).total_nanos,
    {
        let elapsed = match step {
            Steps::Selection => self.selection_timer.begun.elapsed().as_nanos(),
            Steps::Crossover => self.crossover_timer.begun.elapsed().as_nanos(),
            Steps::Mutation => self.mutation_timer.begun.elapsed().as_nanos(),
            Steps::Fitness => self.fitness_timer.begun.elapsed().as_nanos(),
            Steps::Elitism => self.elitism_timer.begun.elapsed().as_nanos(),
        };
        let before = self.step_time(step);
        let accum = if before <= u128::MAX - elapsed {
            before + elapsed
        } else {
            u128::MAX
        };
        let timer = StepTimer { active: false, begun: std::time::Instant::now(), accum_nanos: accum };
        self.put_timer(step, timer);
    }

    /// The nanoseconds accumulated for `step` so far.
    pub fn step_time(&self, step: Steps) -> (r: u128)
        ensures
            r == self.timer(step).accum_nanos,
    {
        match step {
            Steps::Selection => self.selection_timer.accum_nanos,
            Steps::Crossover => self.crossover_timer.accum_nanos,
            Steps::Mutation => self.mutation_timer.accum_nanos,
            Steps::Fitness => self.fitness_timer.accum_nanos,
            Steps::Elitism => self.elitism_timer.accum_nanos,
        }
    }

    /// The nanoseconds between `start_clock` and the last `end_clock`.
    pub fn total_time(&self) -> (r: u128)
        ensures
            r == self.total_nanos,
    {
        self.total_nanos
    }

    fn put_timer(&mut self, step: Steps, timer: StepTimer)
        ensures
            final(self).timer(step) == timer,
            forall|s: Steps| s != step ==> final(self).timer(s) == old(self).timer(s),
            final(self).recorded() == old(self).recorded(),
            final(self).wf() == old(self).wf(),
            final(self).total_nanos == old(self).total_nanos,
    {
        match step {
            Steps::Selection => self.selection_timer = timer,
            Steps::Crossover => self.crossover_timer = timer,
            Steps::Mutation => self.mutation_timer = timer,
            Steps::Fitness => self.fitness_timer = timer,
            Steps::Elitism => self.elitism_timer = timer,
        }
    }
}

} // verus!

//! The generational evolution engine: owns the population and runs the
//! selection, crossover, mutation, re-evaluation and elitism pipeline.

use vstd::prelude::*;

use crate::crossover::Crossover;
use crate::fitness::Fitness;
use crate::metrics::{Metrics, Steps};
use crate::mutation::Mutation;
use crate::parallel::{par_evaluate, par_generate_members};
use crate::population::{GeneCod, Individual};
use crate::selection::{drawn_from, Selection};

verus! {

/// The caller-supplied stopping rule: a pure predicate over the current
/// best fitness, the generation counter and the stagnation counter,
/// evaluated once per generation boundary.
pub trait StopCondition: Sized {
    /// The predicate this rule evaluates.  Implementations define it; an
    /// unspecified rule promises nothing.
    open spec fn stop_spec(&self, best_fitness: i64, generation: u32, stagnation: u32) -> bool {
        vstd::pervasive::arbitrary()
    }

    fn should_stop(&self, best_fitness: i64, generation: u32, stagnation: u32) -> (r: bool)
        ensures
            r == self.stop_spec(best_fitness, generation, stagnation),
    ;
}

/// The immutable description of a run: genome length, population size,
/// encoding tag, and the variant-specific range parameters.
pub struct EvolutionConfig<T: Individual> {
    pub dimension: u32,
    pub population_size: u32,
    pub range: T::Params,
    pub gene_cod: GeneCod,
}

/// The greatest cached fitness in the sequence.
pub open spec fn seq_best_fitness<T: Individual>(s: Seq<T>) -> i64
    decreases s.len(),
{
    if s.len() <= 1 {
        s[0].fitness_of()
    } else if s.last().fitness_of() >= seq_best_fitness(s.drop_last()) {
        s.last().fitness_of()
    } else {
        seq_best_fitness(s.drop_last())
    }
}

/// The sum of the cached fitness values in the sequence.
pub open spec fn seq_fitness_sum<T: Individual>(s: Seq<T>) -> int
    decreases s.len(),
{
    if s.len() == 0 {
        0
    } else {
        seq_fitness_sum(s.drop_last()) + s.last().fitness_of()
    }
}

/// The best fitness bounds every member's fitness and is attained by one
/// of them.
pub proof fn lemma_best_fitness_properties<T: Individual>(s: Seq<T>)
    requires
        s.len() >= 1,
    ensures
        forall|i: int| 0 <= i < s.len() ==> #[trigger] s[i].fitness_of() <= seq_best_fitness(s),
        exists|i: int| 0 <= i < s.len() && s[i].fitness_of() == seq_best_fitness(s),
    decreases s.len(),
{
    if s.len() == 1 {
        assert(s[0].fitness_of() == seq_best_fitness(s));
    } else {
        lemma_best_fitness_properties(s.drop_last());
        assert forall|i: int| 0 <= i < s.len() implies #[trigger] s[i].fitness_of()
            <= seq_best_fitness(s) by {
            if i < s.len() - 1 {
                assert(s[i] == s.drop_last()[i]);
            }
        }
        if s.last().fitness_of() >= seq_best_fitness(s.drop_last()) {
            assert(s[s.len() - 1].fitness_of() == seq_best_fitness(s));
        } else {
            let j = choose|j: int|
                0 <= j < s.drop_last().len() && s.drop_last()[j].fitness_of() == seq_best_fitness(
                    s.drop_last(),
                );
            assert(s[j].fitness_of() == seq_best_fitness(s));
        }
    }
}

/// The fitness sum is bounded by the length times the extreme values.
pub proof fn lemma_fitness_sum_bounds<T: Individual>(s: Seq<T>)
    ensures
        -(s.len() as int) * 0x8000_0000_0000_0000 <= seq_fitness_sum(s),
        seq_fitness_sum(s) <= (s.len() as int) * 0x7fff_ffff_ffff_ffff,
    decreases s.len(),
{
    if s.len() > 0 {
        lemma_fitness_sum_bounds(s.drop_last());
    }
}

/// Indices `0..pop.len()`, reordered so that the members they point at
/// have ascending cached fitness.
pub(crate) fn sort_indices_by_fitness<T: Individual>(pop: &Vec<T>) -> (idx: Vec<usize>)
    ensures
        idx@.len() == pop@.len(),
        forall|a: int| 0 <= a < idx@.len() ==> #[trigger] idx@[a] < pop@.len(),
        forall|a: int, b: int|
            0 <= a < b < idx@.len() ==> pop@[idx@[a] as int].fitness_of() <= pop@[idx@[b] as int].fitness_of(),
        idx@.no_duplicates(),
        forall|j: usize| (j as int) < pop@.len() ==> #[trigger] idx@.contains(j),
{
    let n = pop.len();
    let mut idx: Vec<usize> = Vec::new();
    let mut i: usize = 0;
    while i < n
        invariant
            i <= n,
            idx@.len() == i as nat,
            forall|j: int| 0 <= j < i ==> #[trigger] idx@[j] == j,
        decreases n - i,
    {
        idx.push(i);
        i = i + 1;
    }
    let ghost init = idx@;
    proof {
        assert(init.no_duplicates());
    }
    let mut s: usize = 0;
    while s < n
        invariant
            s <= n,
            idx@.len() == n as nat,
            pop@.len() == n as nat,
            idx@.to_multiset() == init.to_multiset(),
            forall|a: int| 0 <= a < n ==> #[trigger] idx@[a] < n,
            forall|a: int, b: int|
                0 <= a < b < s ==> pop@[idx@[a] as int].fitness_of() <= pop@[idx@[b] as int].fitness_of(),
            forall|a: int, b: int|
                0 <= a < s && s <= b < n ==> pop@[idx@[a] as int].fitness_of() <= pop@[idx@[b] as int].fitness_of(),
        decreases n - s,
    {
        let mut m: usize = s;
        let mut j: usize = s + 1;
        while j < n
            invariant
                s <= m < n,
                s < j <= n,
                idx@.len() == n as nat,
                pop@.len() == n as nat,
                forall|a: int| 0 <= a < n ==> #[trigger] idx@[a] < n,
                forall|b: int|
                    s <= b < j ==> pop@[idx@[m as int] as int].fitness_of() <= pop@[idx@[b] as int].fitness_of(),
            decreases n - j,
        {
            if pop[idx[j]].get_fitness() < pop[idx[m]].get_fitness() {
                m = j;
            }
            j = j + 1;
        }
        let is = idx[s];
        let im = idx[m];
        proof {
            crate::population::lemma_swap_multiset(idx@, s as int, m as int);
        }
        idx.set(s, im);
        idx.set(m, is);
        s = s + 1;
    }
    proof {
        crate::population::lemma_multiset_no_duplicates(init, idx@);
        broadcast use vstd::seq_lib::group_to_multiset_ensures;

        assert forall|j: usize| (j as int) < pop@.len() implies #[trigger] idx@.contains(j) by {
            assert(init[j as int] == j);
            assert(init.contains(j));
            assert(init.to_multiset().count(j) > 0);
            assert(idx@.to_multiset().count(j) > 0);
        }
    }
    idx
}

/// The sum of the cached fitness values, as a machine integer.
pub(crate) fn fitness_sum<T: Individual>(pop: &Vec<T>) -> (r: i128)
    requires
        pop@.len() < 0x1_0000_0000,
    ensures
        r == seq_fitness_sum(pop@),
        -(pop@.len() as int) * 0x8000_0000_0000_0000 <= r,
        r <= (pop@.len() as int) * 0x7fff_ffff_ffff_ffff,
{
    let n = pop.len();
    let mut acc: i128 = 0;
    let mut i: usize = 0;
    while i < n
        invariant
            i <= n,
            pop@.len() == n as nat,
            n < 0x1_0000_0000,
            acc == seq_fitness_sum(pop@.take(i as int)),
            -(i as int) * 0x8000_0000_0000_0000 <= acc,
            acc <= (i as int) * 0x7fff_ffff_ffff_ffff,
        decreases n - i,
    {
        proof {
            assert(pop@.take(i + 1int).drop_last() =~= pop@.take(i as int));
            assert(pop@.take(i + 1int).last() == pop@[i as int]);
        }
        acc = acc + pop[i].get_fitness() as i128;
        i = i + 1;
    }
    proof {
        assert(pop@.take(n as int) =~= pop@);
        lemma_fitness_sum_bounds(pop@);
    }
    acc
}

/// The floor of `sum / count`, as Euclidean division by a positive count.
pub(crate) fn avg_of_sum(sum: i128, count: u32) -> (r: i64)
    requires
        count >= 1,
        -(count as int) * 0x8000_0000_0000_0000 <= sum,
        sum <= (count as int) * 0x7fff_ffff_ffff_ffff,
    ensures
        r == sum as int / count as int,
{
    let c = count as u128;
    if sum >= 0 {
        let q = (sum as u128) / c;
        proof {
            vstd::arithmetic::div_mod::lemma_fundamental_div_mod(sum as int, c as int);
            assert(q <= 0x7fff_ffff_ffff_ffff) by (nonlinear_arith)
                requires
                    q == (sum as u128) / c,
                    sum >= 0,
                    c >= 1,
                    sum <= (c as int) * 0x7fff_ffff_ffff_ffff,
            ;
        }
        q as i64
    } else {
        let m = (-sum) as u128;
        let q0 = m / c;
        let rem = m % c;
        proof {
            vstd::arithmetic::div_mod::lemma_fundamental_div_mod(m as int, c as int);
            assert(m as int == (c as int) * (q0 as int) + rem as int);
            assert(q0 <= 0x8000_0000_0000_0000) by (nonlinear_arith)
                requires
                    c >= 1,
                    m as int == (c as int) * (q0 as int) + rem as int,
                    rem >= 0,
                    m as int <= (c as int) * 0x8000_0000_0000_0000,
            ;
            if rem == 0 {
                assert(sum as int == (-(q0 as int)) * (c as int) + 0) by (nonlinear_arith)
                    requires
                        m as int == (c as int) * (q0 as int) + rem as int,
                        rem == 0,
                        sum as int == -(m as int),
                ;
                vstd::arithmetic::div_mod::lemma_fundamental_div_mod_converse(
                    sum as int,
                    c as int,
                    -(q0 as int),
                    0,
                );
            } else {
                assert(q0 < 0x8000_0000_0000_0000) by (nonlinear_arith)
                    requires
                        c >= 1,
                        rem != 0,
                        rem < c,
                        m as int == (c as int) * (q0 as int) + rem as int,
                        m as int <= (c as int) * 0x8000_0000_0000_0000,
                ;
                assert(sum as int == (-(q0 as int) - 1) * (c as int) + (c - rem) as int)
                    by (nonlinear_arith)
                    requires
                        m as int == (c as int) * (q0 as int) + rem as int,
                        sum as int == -(m as int),
                ;
                vstd::arithmetic::div_mod::lemma_fundamental_div_mod_converse(
                    sum as int,
                    c as int,
                    -(q0 as int) - 1,
                    (c - rem) as int,
                );
            }
        }
        if rem == 0 {
            (-(q0 as i128)) as i64
        } else {
            (-(q0 as i128) - 1) as i64
        }
    }
}

/// What `population_digest` reports: the generation counter, the best
/// and average fitness, and every member's cached fitness.
pub struct PopulationDigest {
    pub iterations: u32,
    pub best_fitness: i64,
    pub average_fitness: i64,
    pub fitnesses: Vec<i64>,
}

/// What `time_digest` reports: the total wall time and the nanoseconds
/// accumulated by each pipeline phase.
pub struct TimeDigest {
    pub total_nanos: u128,
    pub selection_nanos: u128,
    pub crossover_nanos: u128,
    pub mutation_nanos: u128,
    pub fitness_nanos: u128,
    pub elitism_nanos: u128,
}

/// The engine.  It owns one live population, the configuration, the four
/// operators, the elitism count, the stop condition and the metrics, and
/// runs the per-generation pipeline.
pub struct Evolution<T: Individual, F: Fitness<T>, S: Selection<T>, C: Crossover<T>, M: Mutation<
    T,
>, P: StopCondition> {
    pub title: String,
    pub config: EvolutionConfig<T>,
    pub fitness: F,
    pub selection: S,
    pub crossover: C,
    pub mutation: M,
    pub elitism: u32,
    pub stop_condition: P,
    pub metrics: Metrics,
    pub current_population: Vec<T>,
}

impl<
    T: Individual + Send,
    F: Fitness<T> + Sync,
    S: Selection<T>,
    C: Crossover<T>,
    M: Mutation<T>,
    P: StopCondition,
> Evolution<T, F, S, C, M, P> where T::Params: Sync {
    /// The live population.
    pub open spec fn population(&self) -> Seq<T> {
        self.current_population@
    }

    pub open spec fn population_size(&self) -> u32 {
        self.config.population_size
    }

    pub open spec fn dimension(&self) -> u32 {
        self.config.dimension
    }

    pub open spec fn params(&self) -> T::Params {
        self.config.range
    }

    pub open spec fn elitism_count(&self) -> u32 {
        self.elitism
    }

    pub open spec fn fitness_op(&self) -> F {
        self.fitness
    }

    pub open spec fn stop_op(&self) -> P {
        self.stop_condition
    }

    /// The configuration is one the engine can run: a non-empty
    /// population, an elitism count it can capture, and generation
    /// parameters the genome accepts.
    pub open spec fn config_ok(&self) -> bool {
        &&& self.population_size() >= 1
        &&& self.elitism_count() <= self.population_size()
        &&& T::params_ok(self.params())
    }

    /// Every member's cached fitness is the score of its current genome.
    pub open spec fn evaluated(&self) -> bool {
        forall|i: int|
            0 <= i < self.population().len() ==> #[trigger] self.population()[i].fitness_of()
                == self.fitness_op().fitness_spec(self.population()[i].genome())
    }

    /// The started engine's invariant: the population holds exactly
    /// `population_size` members, every genome has the configured length,
    /// all cached fitness values are current, and the metrics are in step.
    pub open spec fn well_formed(&self) -> bool {
        &&& self.config_ok()
        &&& self.population().len() == self.population_size() as nat
        &&& forall|i: int|
            0 <= i < self.population().len() ==> #[trigger] self.population()[i].genome().len()
                == self.dimension() as nat
        &&& self.evaluated()
        &&& self.metrics.wf()
        &&& forall|s: Steps| !(#[trigger] self.metrics.timer(s)).active
    }

    /// The configuration and the operators of `a` and `b` are the same.
    pub open spec fn same_setup(a: &Self, b: &Self) -> bool {
        &&& a.title == b.title
        &&& a.config.dimension == b.config.dimension
        &&& a.config.population_size == b.config.population_size
        &&& a.config.range == b.config.range
        &&& a.config.gene_cod == b.config.gene_cod
        &&& a.fitness == b.fitness
        &&& a.selection == b.selection
        &&& a.crossover == b.crossover
        &&& a.mutation == b.mutation
        &&& a.elitism == b.elitism
        &&& a.stop_condition == b.stop_condition
    }

    /// `same_setup` keeps every public accessor of the setup.
    pub proof fn lemma_same_setup(a: &Self, b: &Self)
        requires
            Self::same_setup(a, b),
        ensures
            a.population_size() == b.population_size(),
            a.dimension() == b.dimension(),
            a.params() == b.params(),
            a.elitism_count() == b.elitism_count(),
            a.fitness_op() == b.fitness_op(),
            a.stop_op() == b.stop_op(),
            a.config_ok() == b.config_ok(),
    {
    }

    /// Assembles an engine in its fresh state, with an empty population.
    pub fn new(
        title: String,
        config: EvolutionConfig<T>,
        fitness: F,
        selection: S,
        crossover: C,
        mutation: M,
        elitism: u32,
        stop_condition: P,
    ) -> (r: Self)
        requires
            elitism <= config.population_size,
        ensures
            config.population_size >= 1 && T::params_ok(config.range) ==> r.config_ok(),
            r.population_size() == config.population_size,
            r.dimension() == config.dimension,
            r.params() == config.range,
            r.elitism_count() == elitism,
            r.fitness_op() == fitness,
            r.stop_op() == stop_condition,
            r.population().len() == 0,
            r.metrics.iterations == 0,
    {
        Self {
            title,
            current_population: Vec::new(),
            config,
            fitness,
            selection,
            crossover,
            mutation,
            elitism,
            stop_condition,
            metrics: Metrics::new(),
        }
    }

    /// Generates and evaluates a fresh random population, resets the
    /// metrics, and records generation zero.
    pub fn start(&mut self)
        requires
            old(self).config_ok(),
        ensures
            final(self).well_formed(),
            Self::same_setup(old(self), final(self)),
            final(self).metrics.iterations == 1,
            final(self).metrics.gens_without_improvement == 0,
            final(self).metrics.best_fitnesses@ == seq![seq_best_fitness(final(self).population())],
            final(self).metrics.avg_fitnesses@.len() == 1,
            final(self).metrics.avg_fitnesses@.last() == seq_fitness_sum(
                final(self).population(),
            ) / (final(self).population_size() as int),
            forall|i: int|
                0 <= i < final(self).population().len() ==> T::generated_ok(
                    old(self).dimension(),
                    old(self).params(),
                    &final(self).population()[i],
                ),
    {
        self.metrics = Metrics::new();
        self.metrics.start_clock();
        self.current_population = par_generate_members::<T>(
            self.config.population_size as usize,
            self.config.dimension,
            &self.config.range,
        );
        let ghost generated = self.current_population@;
        self.process_fitness();
        proof {
            assert forall|i: int| 0 <= i < self.population().len() implies T::generated_ok(
                old(self).dimension(),
                old(self).params(),
                &self.population()[i],
            ) by {
                assert(generated[i].genome().len() == old(self).dimension() as nat);
                assert(T::generated_ok(old(self).dimension(), old(self).params(), &generated[i]));
                assert(T::generated_ok(old(self).dimension(), old(self).params(), &self.population()[i]) == T::generated_ok(
                    old(self).dimension(),
                    old(self).params(),
                    &generated[i],
                ));
            }
        }
        let best = self.current_best_fitness();
        let avg = self.current_fitness_average();
        self.metrics.record(best, avg);
    }

    /// Runs one generation: capture elitists, select, recombine, mutate,
    /// replace, re-evaluate, restore elitists over the worst, record.
    /// With elitism on, the best fitness never decreases.
    pub fn next(&mut self)
        requires
            old(self).well_formed(),
            old(self).metrics.iterations < u32::MAX,
        ensures
            final(self).well_formed(),
            Self::same_setup(old(self), final(self)),
            old(self).elitism_count() >= 1 ==> seq_best_fitness(final(self).population())
                >= seq_best_fitness(old(self).population()),
            final(self).metrics.iterations == old(self).metrics.iterations + 1,
            final(self).metrics.best_fitnesses@ == old(self).metrics.best_fitnesses@.push(
                seq_best_fitness(final(self).population()),
            ),
            final(self).metrics.avg_fitnesses@.len() == old(self).metrics.avg_fitnesses@.len()
                + 1,
            final(self).metrics.avg_fitnesses@.drop_last() == old(self).metrics.avg_fitnesses@,
            final(self).metrics.avg_fitnesses@.last() == seq_fitness_sum(
                final(self).population(),
            ) / (final(self).population_size() as int),
            final(self).metrics.gens_without_improvement == if old(self).metrics.best_fitnesses@.len() > 0 && old(self).metrics.best_fitnesses@.last()
                == seq_best_fitness(final(self).population()) {
                old(self).metrics.gens_without_improvement + 1int
            } else {
                0int
            },
            exists|selected: Seq<T>, crossed: Seq<T>, mutated: Seq<T>|
                {
                    &&& #[trigger] crate::selection::sampled_from(old(self).population(), selected)
                    &&& #[trigger] crate::crossover::recombined_pool(
                        old(self).crossover,
                        selected,
                        crossed,
                    )
                    &&& #[trigger] crate::mutation::mutated_pool(
                        old(self).mutation,
                        crossed,
                        mutated,
                    )
                    &&& final(self).population().len() == mutated.len()
                    &&& forall|i: int|
                        0 <= i < final(self).population().len() ==> ((#[trigger] final(self).population()[i].genome()) == mutated[i].genome()
                            || crate::selection::drawn_from(
                            old(self).population(),
                            final(self).population()[i],
                        ))
                },
    {
        let ghost pre = *self;
        self.metrics.step_start(Steps::Elitism);
        let elitists = self.find_elitists();
        self.metrics.step_end(Steps::Elitism);

        self.metrics.step_start(Steps::Selection);
        let mut mating_pool = self.selection.get_mating_pool(&self.current_population);
        self.metrics.step_end(Steps::Selection);
        let ghost selected = mating_pool@;

        proof {
            assert forall|i: int| 0 <= i < mating_pool@.len() implies #[trigger] mating_pool@[i].genome().len() == self.dimension() as nat by {
                let j = choose|j: int|
                    0 <= j < pre.population().len() && mating_pool@[i].genome()
                        == pre.population()[j].genome() && mating_pool@[i].fitness_of()
                        == pre.population()[j].fitness_of();
            }
        }

        self.metrics.step_start(Steps::Crossover);
        self.crossover.crossover(&mut mating_pool);
        self.metrics.step_end(Steps::Crossover);
        let ghost crossed = mating_pool@;

        self.metrics.step_start(Steps::Mutation);
        self.mutation.mutate(&mut mating_pool);
        self.metrics.step_end(Steps::Mutation);
        let ghost mutated = mating_pool@;

        self.current_population = mating_pool;

        self.process_fitness();
        let ghost evaluated = self.current_population@;

        self.metrics.step_start(Steps::Elitism);
        if self.elitism > 0 && elitists.len() > 0 {
            proof {
                assert forall|t: int| 0 <= t < elitists@.len() implies #[trigger] elitists@[t].fitness_of() == self.fitness_op().fitness_spec(elitists@[t].genome())
                    && elitists@[t].genome().len() == self.dimension() as nat by {
                    let j = choose|j: int|
                        0 <= j < pre.population().len() && elitists@[t].genome()
                            == pre.population()[j].genome() && elitists@[t].fitness_of()
                            == pre.population()[j].fitness_of();
                }
            }
            let ghost best_elitist = elitists@[0];
            self.replace_worsts_with_elitists(elitists);
            proof {
                assert(self.population().contains(best_elitist));
                let w = choose|i: int|
                    0 <= i < self.population().len() && self.population()[i] == best_elitist;
                lemma_best_fitness_properties(self.population());
                assert(self.population()[w].fitness_of() <= seq_best_fitness(self.population()));
            }
        }
        self.metrics.step_end(Steps::Elitism);

        proof {
            assert(selected.len() == pre.population().len());
            assert(forall|i: int|
                0 <= i < selected.len() ==> crate::selection::drawn_from(
                    pre.population(),
                    #[trigger] selected[i],
                ));
            assert(crate::selection::sampled_from(pre.population(), selected));
            assert(crate::crossover::recombined_pool(pre.crossover, selected, crossed));
            assert(crate::mutation::mutated_pool(pre.mutation, crossed, mutated));
            assert forall|i: int| 0 <= i < self.population().len() implies ((
            #[trigger] self.population()[i].genome()) == mutated[i].genome()
                || crate::selection::drawn_from(pre.population(), self.population()[i])) by {
                assert(evaluated[i].genome() == mutated[i].genome());
                if self.population()[i].genome() != mutated[i].genome() {
                    let t = choose|t: int|
                        0 <= t < elitists@.len() && self.population()[i] == elitists@[t];
                    assert(crate::selection::drawn_from(pre.population(), elitists@[t]));
                }
            }
        }

        let best = self.current_best_fitness();
        let avg = self.current_fitness_average();
        self.metrics.record(best, avg);
    }

    /// Runs `start` and then generations until the stop condition holds
    /// (or the generation counter would overflow).
    pub fn run(&mut self)
        requires
            old(self).config_ok(),
        ensures
            final(self).well_formed(),
            Self::same_setup(old(self), final(self)),
            final(self).metrics.iterations >= 1,
            final(self).stop_op().stop_spec(
                seq_best_fitness(final(self).population()),
                final(self).metrics.iterations,
                final(self).metrics.gens_without_improvement,
            ) || final(self).metrics.iterations == u32::MAX,
            final(self).metrics.best_fitnesses@.last() == seq_best_fitness(
                final(self).population(),
            ),
    {
        let ghost pre = *self;
        self.start();
        while !self.reached_stop_condition() && self.metrics.iterations < u32::MAX
            invariant
                self.well_formed(),
                self.metrics.iterations >= 1,
                Self::same_setup(&pre, self),
                self.metrics.best_fitnesses@.last() == seq_best_fitness(self.population()),
            decreases u32::MAX - self.metrics.iterations,
        {
            self.next();
        }
        self.metrics.end_clock();
    }

    /// The member with the greatest cached fitness (the first such member
    /// in population order).
    pub fn current_best(&self) -> (r: &T)
        requires
            self.population().len() >= 1,
        ensures
            r.fitness_of() == seq_best_fitness(self.population()),
            drawn_from(self.population(), *r),
    {
        let mut best: usize = 0;
        let mut i: usize = 1;
        let n = self.current_population.len();
        while i < n
            invariant
                best < i,
                i <= n,
                self.population().len() == n as nat,
                forall|j: int|
                    0 <= j < i ==> #[trigger] self.population()[j].fitness_of()
                        <= self.population()[best as int].fitness_of(),
            decreases n - i,
        {
            if self.current_population[i].get_fitness()
                > self.current_population[best].get_fitness() {
                best = i;
            }
            i = i + 1;
        }
        proof {
            lemma_best_fitness_properties(self.population());
            let w = choose|j: int|
                0 <= j < self.population().len() && self.population()[j].fitness_of()
                    == seq_best_fitness(self.population());
            assert(self.population()[w].fitness_of() <= self.population()[best as int].fitness_of());
            assert(self.current_population@[best as int].genome() == self.population()[best as int].genome());
            assert(drawn_from(self.population(), self.current_population@[best as int]));
        }
        &self.current_population[best]
    }

    /// The greatest cached fitness in the population.
    pub fn current_best_fitness(&self) -> (r: i64)
        requires
            self.population().len() >= 1,
        ensures
            r == seq_best_fitness(self.population()),
    {
        self.current_best().get_fitness()
    }

    /// The average cached fitness (the floor of sum over size).
    pub fn current_fitness_average(&self) -> (r: i64)
        requires
            self.population().len() == self.population_size() as nat,
            self.population_size() >= 1,
        ensures
            r == seq_fitness_sum(self.population()) / (self.population_size() as int),
    {
        let sum = fitness_sum(&self.current_population);
        avg_of_sum(sum, self.config.population_size)
    }

    /// A copy of the population, sorted by ascending fitness.
    pub fn current_population(&self) -> (r: Vec<T>)
        ensures
            r@.len() == self.population().len(),
            forall|a: int, b: int|
                0 <= a < b < r@.len() ==> r@[a].fitness_of() <= r@[b].fitness_of(),
            forall|i: int| 0 <= i < r@.len() ==> drawn_from(self.population(), #[trigger] r@[i]),
    {
        let idx = sort_indices_by_fitness(&self.current_population);
        let mut r: Vec<T> = Vec::new();
        let mut t: usize = 0;
        while t < idx.len()
            invariant
                t <= idx@.len(),
                idx@.len() == self.population().len(),
                forall|a: int| 0 <= a < idx@.len() ==> #[trigger] idx@[a] < self.population().len(),
                forall|a: int, b: int|
                    0 <= a < b < idx@.len() ==> self.population()[idx@[a] as int].fitness_of()
                        <= self.population()[idx@[b] as int].fitness_of(),
                r@.len() == t as nat,
                forall|a: int|
                    0 <= a < t ==> #[trigger] r@[a].fitness_of() == self.population()[idx@[a] as int].fitness_of(),
                forall|a: int| 0 <= a < t ==> drawn_from(self.population(), #[trigger] r@[a]),
            decreases idx@.len() - t,
        {
            let pos = idx[t];
            r.push(self.current_population[pos].duplicate());
            proof {
                assert(r@.last().genome() == self.population()[pos as int].genome());
            }
            t = t + 1;
        }
        r
    }

    /// Whether the stop condition holds for the current state.
    pub fn reached_stop_condition(&self) -> (r: bool)
        requires
            self.population().len() >= 1,
        ensures
            r == self.stop_op().stop_spec(
                seq_best_fitness(self.population()),
                self.metrics.iterations,
                self.metrics.gens_without_improvement,
            ),
    {
        let best = self.current_best_fitness();
        self.stop_condition.should_stop(
            best,
            self.metrics.iterations,
            self.metrics.gens_without_improvement,
        )
    }

    /// Copies of the `elitism` fittest members, the very fittest first.
    fn find_elitists(&self) -> (r: Vec<T>)
        requires
            self.population().len() >= 1,
            self.elitism_count() as nat <= self.population().len(),
        ensures
            r@.len() == self.elitism_count() as nat,
            forall|t: int| 0 <= t < r@.len() ==> drawn_from(self.population(), #[trigger] r@[t]),
            self.elitism_count() >= 1 ==> r@[0].fitness_of() == seq_best_fitness(
                self.population(),
            ),
            forall|t1: int, t2: int|
                0 <= t1 < t2 < r@.len() ==> r@[t1].fitness_of() >= r@[t2].fitness_of(),
    {
        let idx = sort_indices_by_fitness(&self.current_population);
        let n = self.current_population.len();
        let k = self.elitism as usize;
        let mut r: Vec<T> = Vec::new();
        let mut t: usize = 0;
        while t < k
            invariant
                t <= k,
                k <= n,
                n >= 1,
                idx@.len() == n as nat,
                self.population().len() == n as nat,
                forall|a: int| 0 <= a < idx@.len() ==> #[trigger] idx@[a] < n,
                forall|a: int, b: int|
                    0 <= a < b < idx@.len() ==> self.population()[idx@[a] as int].fitness_of()
                        <= self.population()[idx@[b] as int].fitness_of(),
                forall|j: usize| (j as int) < n ==> #[trigger] idx@.contains(j),
                r@.len() == t as nat,
                forall|t2: int| 0 <= t2 < t ==> drawn_from(self.population(), #[trigger] r@[t2]),
                t >= 1 ==> r@[0].fitness_of() == seq_best_fitness(self.population()),
                forall|a: int, b: int|
                    0 <= a < b < t ==> r@[a].fitness_of() >= r@[b].fitness_of(),
                forall|t2: int|
                    0 <= t2 < t ==> #[trigger] r@[t2].fitness_of() == self.population()[idx@[n
                        - 1 - t2] as int].fitness_of(),
            decreases k - t,
        {
            let pos = idx[n - 1 - t];
            r.push(self.current_population[pos].duplicate());
            proof {
                assert(r@.last().genome() == self.population()[pos as int].genome());
                if t == 0 {
                    lemma_best_fitness_properties(self.population());
                    let w = choose|j: int|
                        0 <= j < self.population().len() && self.population()[j].fitness_of()
                            == seq_best_fitness(self.population());
                    assert(idx@.contains(w as usize));
                    let a = choose|a: int| 0 <= a < idx@.len() && idx@[a] == w as usize;
                    assert(self.population()[idx@[a] as int].fitness_of()
                        <= self.population()[idx@[n - 1] as int].fitness_of());
                    assert(self.population()[pos as int].fitness_of() <= seq_best_fitness(
                        self.population(),
                    ));
                }
            }
            t = t + 1;
        }
        r
    }

    /// Replaces the `elitists.len()` members with the lowest cached
    /// fitness by the elitists, one for one at distinct positions.
    fn replace_worsts_with_elitists(&mut self, elitists: Vec<T>)
        requires
            elitists@.len() <= old(self).population().len(),
        ensures
            final(self).population().len() == old(self).population().len(),
            forall|t: int|
                #![trigger elitists@[t]]
                0 <= t < elitists@.len() ==> final(self).population().contains(elitists@[t]),
            forall|i: int|
                0 <= i < final(self).population().len() ==> (#[trigger] final(self).population()[i]
                    == old(self).population()[i]) || (exists|t: int|
                    0 <= t < elitists@.len() && final(self).population()[i] == elitists@[t]),
            final(self).metrics == old(self).metrics,
            Self::same_setup(old(self), final(self)),
    {
        let ghost pre = self.current_population@;
        let ghost all = elitists@;
        let idx = sort_indices_by_fitness(&self.current_population);
        let mut remaining = elitists;
        proof {
            assert(all.take(all.len() as int) =~= all);
        }
        while remaining.len() > 0
            invariant
                remaining@.len() <= all.len(),
                all.len() <= pre.len(),
                remaining@ == all.take(remaining@.len() as int),
                idx@.len() == pre.len(),
                idx@.no_duplicates(),
                forall|a: int| 0 <= a < idx@.len() ==> #[trigger] idx@[a] < pre.len(),
                self.current_population@.len() == pre.len(),
                forall|t: int|
                    remaining@.len() <= t < all.len() ==> self.current_population@[idx@[t] as int]
                        == all[t],
                forall|i: int|
                    0 <= i < pre.len() ==> (#[trigger] self.current_population@[i] == pre[i]) || (
                    exists|t: int|
                        0 <= t < all.len() && self.current_population@[i] == all[t]),
                self.metrics == old(self).metrics,
                Self::same_setup(old(self), self),
            decreases remaining@.len(),
        {
            let t = remaining.len() - 1;
            let e = match remaining.pop() {
                Some(e) => e,
                None => {
                    proof {
                        assert(false);
                    }
                    return ;
                },
            };
            proof {
                assert(e == all[t as int]);
                assert(remaining@ =~= all.take(t as int));
            }
            let pos = idx[t];
            self.current_population.set(pos, e);
            proof {
                assert forall|t2: int|
                    t <= t2 < all.len() implies self.current_population@[idx@[t2] as int]
                    == all[t2] by {
                    if t2 != t as int {
                        assert(idx@[t2] != idx@[t as int]);
                    }
                }
            }
        }
        proof {
            assert forall|t: int|
                #![trigger elitists@[t]]
                0 <= t < elitists@.len() implies self.population().contains(elitists@[t]) by {
                assert(elitists@[t] == all[t]);
                assert(self.population()[idx@[t] as int] == all[t]);
            }
            assert forall|i: int| 0 <= i < self.population().len() implies ((
            #[trigger] self.population()[i]) == pre[i]) || (exists|t: int|
                0 <= t < elitists@.len() && self.population()[i] == elitists@[t]) by {
                if self.current_population@[i] != pre[i] {
                    let tw = choose|t: int|
                        0 <= t < all.len() && self.current_population@[i] == all[t];
                    assert(self.population()[i] == elitists@[tw]);
                }
            }
        }
    }

    /// The numbers a population report prints: generation counter, best
    /// and average fitness, and the cached fitness of every member.
    pub fn population_digest(&self) -> (r: PopulationDigest)
        requires
            self.population().len() == self.population_size() as nat,
            self.population_size() >= 1,
        ensures
            r.iterations == self.metrics.iterations,
            r.best_fitness == seq_best_fitness(self.population()),
            r.average_fitness == seq_fitness_sum(self.population()) / (
            self.population_size() as int),
            r.fitnesses@.len() == self.population().len(),
            forall|i: int|
                0 <= i < r.fitnesses@.len() ==> #[trigger] r.fitnesses@[i]
                    == self.population()[i].fitness_of(),
    {
        let best_fitness = self.current_best_fitness();
        let average_fitness = self.current_fitness_average();
        let mut fitnesses: Vec<i64> = Vec::new();
        let n = self.current_population.len();
        let mut i: usize = 0;
        while i < n
            invariant
                i <= n,
                self.population().len() == n as nat,
                fitnesses@.len() == i as nat,
                forall|p: int|
                    0 <= p < i ==> #[trigger] fitnesses@[p] == self.population()[p].fitness_of(),
            decreases n - i,
        {
            fitnesses.push(self.current_population[i].get_fitness());
            i = i + 1;
        }
        PopulationDigest { iterations: self.metrics.iterations, best_fitness, average_fitness, fitnesses }
    }

    /// The wall-clock totals: the overall time and each phase's share.
    pub fn time_digest(&self) -> (r: TimeDigest)
        ensures
            r.total_nanos == self.metrics.total_nanos,
            r.selection_nanos == self.metrics.timer(Steps::Selection).accum_nanos,
            r.crossover_nanos == self.metrics.timer(Steps::Crossover).accum_nanos,
            r.mutation_nanos == self.metrics.timer(Steps::Mutation).accum_nanos,
            r.fitness_nanos == self.metrics.timer(Steps::Fitness).accum_nanos,
            r.elitism_nanos == self.metrics.timer(Steps::Elitism).accum_nanos,
    {
        TimeDigest {
            total_nanos: self.metrics.total_time(),
            selection_nanos: self.metrics.step_time(Steps::Selection),
            crossover_nanos: self.metrics.step_time(Steps::Crossover),
            mutation_nanos: self.metrics.step_time(Steps::Mutation),
            fitness_nanos: self.metrics.step_time(Steps::Fitness),
            elitism_nanos: self.metrics.step_time(Steps::Elitism),
        }
    }

    /// Evaluates the whole population in parallel, refreshing every
    /// cached fitness.
    fn process_fitness(&mut self)
        requires
            !old(self).metrics.step_active(Steps::Fitness),
        ensures
            final(self).population().len() == old(self).population().len(),
            forall|i: int|
                0 <= i < final(self).population().len() ==> #[trigger] final(self).population()[i].genome() == old(self).population()[i].genome(),
            forall|i: int, d: u32, p: T::Params|
                0 <= i < final(self).population().len() ==> #[trigger] T::generated_ok(
                    d,
                    p,
                    &final(self).population()[i],
                ) == T::generated_ok(d, p, &old(self).population()[i]),
            final(self).evaluated(),
            Self::same_setup(old(self), final(self)),
            final(self).metrics.recorded() == old(self).metrics.recorded(),
            final(self).metrics.wf() == old(self).metrics.wf(),
            forall|s: Steps|
                s != Steps::Fitness ==> final(self).metrics.timer(s) == old(self).metrics.timer(s),
            !final(self).metrics.step_active(Steps::Fitness),
    {
        self.metrics.step_start(Steps::Fitness);
        par_evaluate(&mut self.current_population, &self.fitness);
        self.metrics.step_end(Steps::Fitness);
    }
}

} // verus!

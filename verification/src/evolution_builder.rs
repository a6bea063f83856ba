//! The builder that accumulates operators and validates them into a
//! runnable engine.

use vstd::prelude::*;

use crate::crossover::Crossover;
use crate::evolution::{Evolution, EvolutionConfig, StopCondition};
use crate::fitness::Fitness;
use crate::mutation::Mutation;
use crate::population::{GeneCod, Individual};
use crate::selection::Selection;

verus! {

/// Why a build was refused.
#[derive(Clone, Copy, Debug, PartialEq, Eq, Structural)]
pub enum BuildError {
    MissingConfig,
    MissingFitness,
    MissingSelection,
    MissingCrossover,
    MissingMutation,
    MissingStopCondition,
    ElitismExceedsPopulation,
}

impl BuildError {
    /// A short description of the refusal.
    pub fn as_str(&self) -> &'static str {
        match self {
            BuildError::MissingConfig => "no config provided",
            BuildError::MissingFitness => "no fitness provided",
            BuildError::MissingSelection => "no selection provided",
            BuildError::MissingCrossover => "no crossover provided",
            BuildError::MissingMutation => "no mutation provided",
            BuildError::MissingStopCondition => "no stop condition provided",
            BuildError::ElitismExceedsPopulation => "elitism count exceeds population size",
        }
    }
}

/// Accumulates the optional collaborator slots and the configuration.
/// `build` validates them and produces an engine; the same builder can be
/// used again to build further, independent engines.
pub struct EvolutionBuilder<T: Individual, F: Fitness<T>, S: Selection<T>, C: Crossover<T>, M: Mutation<T>, P: StopCondition> {
    pub title: Option<String>,
    pub evolution_config: Option<EvolutionConfig<T>>,
    pub fitness: Option<F>,
    pub selection: Option<S>,
    pub crossover: Option<C>,
    pub mutation: Option<M>,
    pub elitism: Option<u32>,
    pub stop_condition: Option<P>,
}

impl<
    T: Individual + Send,
    F: Fitness<T> + Sync + Clone,
    S: Selection<T> + Clone,
    C: Crossover<T> + Clone,
    M: Mutation<T> + Clone,
    P: StopCondition + Clone,
> EvolutionBuilder<T, F, S, C, M, P> where T::Params: Sync + Copy {
    /// The elitism count a build will use: the configured one, or one
    /// elitist by default.
    pub open spec fn elitism_count(&self) -> u32 {
        match self.elitism {
            Some(k) => k,
            None => 1u32,
        }
    }

    /// Whether every required slot is set and the elitism count can be
    /// captured from the population.
    pub open spec fn buildable(&self) -> bool {
        &&& self.evolution_config is Some
        &&& self.fitness is Some
        &&& self.selection is Some
        &&& self.crossover is Some
        &&& self.mutation is Some
        &&& self.stop_condition is Some
        &&& self.elitism_count() <= self.evolution_config->Some_0.population_size
    }

    /// Whether the built engine can also be started: the population is
    /// non-empty and the gene encoding accepts the range.  A degenerate
    /// configuration still builds (it dies only when run), so this is
    /// what running a built engine requires.
    pub open spec fn runnable(&self) -> bool {
        &&& self.buildable()
        &&& self.evolution_config->Some_0.population_size >= 1
        &&& T::params_ok(self.evolution_config->Some_0.range)
    }

    /// The first validation failure, in the order the checks run.
    pub open spec fn build_error(&self) -> BuildError {
        if self.evolution_config is None {
            BuildError::MissingConfig
        } else if self.fitness is None {
            BuildError::MissingFitness
        } else if self.selection is None {
            BuildError::MissingSelection
        } else if self.crossover is None {
            BuildError::MissingCrossover
        } else if self.mutation is None {
            BuildError::MissingMutation
        } else if self.stop_condition is None {
            BuildError::MissingStopCondition
        } else {
            BuildError::ElitismExceedsPopulation
        }
    }

    /// An empty builder around a configuration assembled from its parts.
    pub fn new(population_size: u32, dimension: u32, gene_cod: GeneCod, range: T::Params) -> (r:
        Self)
        ensures
            r.evolution_config is Some,
            r.evolution_config->Some_0.population_size == population_size,
            r.evolution_config->Some_0.dimension == dimension,
            r.evolution_config->Some_0.range == range,
            r.fitness is None,
            r.selection is None,
            r.crossover is None,
            r.mutation is None,
            r.stop_condition is None,
            r.elitism is None,
            r.title is None,
    {
        Self {
            title: None,
            evolution_config: Some(
                EvolutionConfig { dimension, population_size, range, gene_cod },
            ),
            fitness: None,
            selection: None,
            crossover: None,
            mutation: None,
            stop_condition: None,
            elitism: None,
        }
    }

    /// An empty builder around a ready configuration.
    pub fn from_config(config: EvolutionConfig<T>) -> (r: Self)
        ensures
            r.evolution_config is Some,
            r.evolution_config->Some_0 == config,
            r.fitness is None,
            r.selection is None,
            r.crossover is None,
            r.mutation is None,
            r.stop_condition is None,
            r.elitism is None,
            r.title is None,
    {
        Self {
            title: None,
            evolution_config: Some(config),
            fitness: None,
            selection: None,
            crossover: None,
            mutation: None,
            stop_condition: None,
            elitism: None,
        }
    }

    /// Sets the fitness function.
    pub fn with_fitness(self, f: F) -> (r: Self)
        ensures
            r == (Self { fitness: Some(f), ..self }),
    {
        Self { fitness: Some(f), ..self }
    }

    /// Sets the selection operator.
    pub fn with_selection(self, s: S) -> (r: Self)
        ensures
            r == (Self { selection: Some(s), ..self }),
    {
        Self { selection: Some(s), ..self }
    }

    /// Sets the crossover operator.
    pub fn with_crossover(self, c: C) -> (r: Self)
        ensures
            r == (Self { crossover: Some(c), ..self }),
    {
        Self { crossover: Some(c), ..self }
    }

    /// Sets the mutation operator.
    pub fn with_mutation(self, m: M) -> (r: Self)
        ensures
            r == (Self { mutation: Some(m), ..self }),
    {
        Self { mutation: Some(m), ..self }
    }

    /// Sets the stop condition.
    pub fn with_stop_condition(self, p: P) -> (r: Self)
        ensures
            r == (Self { stop_condition: Some(p), ..self }),
    {
        Self { stop_condition: Some(p), ..self }
    }

    /// Sets how many elitists to carry over each generation (the default
    /// is one).
    pub fn with_elitism(self, elitism: u32) -> (r: Self)
        ensures
            r == (Self { elitism: Some(elitism), ..self }),
    {
        Self { elitism: Some(elitism), ..self }
    }

    /// Sets the run's title.
    pub fn with_title(self, title: String) -> (r: Self)
        ensures
            r.evolution_config == self.evolution_config,
            r.fitness == self.fitness,
            r.selection == self.selection,
            r.crossover == self.crossover,
            r.mutation == self.mutation,
            r.stop_condition == self.stop_condition,
            r.elitism == self.elitism,
            r.title is Some,
    {
        Self { title: Some(title), ..self }
    }

    /// Validates the slots and produces a ready engine.  It fails exactly
    /// when a required slot is missing or the elitism count exceeds the
    /// population size, with the first such failure as the error.
    pub fn build(&self) -> (r: Result<Evolution<T, F, S, C, M, P>, BuildError>)
        ensures
            r is Ok <==> self.buildable(),
            r is Err ==> r->Err_0 == self.build_error(),
            r is Ok && self.runnable() ==> (r->Ok_0).config_ok(),
            r is Ok ==> (r->Ok_0).population_size()
                == self.evolution_config->Some_0.population_size,
            r is Ok ==> (r->Ok_0).dimension() == self.evolution_config->Some_0.dimension,
            r is Ok ==> (r->Ok_0).params() == self.evolution_config->Some_0.range,
            r is Ok ==> (r->Ok_0).elitism_count() == self.elitism_count(),
            r is Ok ==> (r->Ok_0).population().len() == 0,
            r is Ok ==> (r->Ok_0).metrics.iterations == 0,
    {
        let config = match &self.evolution_config {
            Some(config) => config,
            None => {
                return Err(BuildError::MissingConfig);
            },
        };
        let fitness = match &self.fitness {
            Some(f) => f,
            None => {
                return Err(BuildError::MissingFitness);
            },
        };
        let selection = match &self.selection {
            Some(s) => s,
            None => {
                return Err(BuildError::MissingSelection);
            },
        };
        let crossover = match &self.crossover {
            Some(c) => c,
            None => {
                return Err(BuildError::MissingCrossover);
            },
        };
        let mutation = match &self.mutation {
            Some(m) => m,
            None => {
                return Err(BuildError::MissingMutation);
            },
        };
        let stop_condition = match &self.stop_condition {
            Some(p) => p,
            None => {
                return Err(BuildError::MissingStopCondition);
            },
        };
        let elitism = match &self.elitism {
            Some(k) => *k,
            None => 1,
        };
        if !(elitism <= config.population_size) {
            return Err(BuildError::ElitismExceedsPopulation);
        }
        let title = match &self.title {
            Some(t) => t.clone(),
            None => String::new(),
        };
        let config_copy = EvolutionConfig {
            dimension: config.dimension,
            population_size: config.population_size,
            range: config.range,
            gene_cod: config.gene_cod,
        };
        Ok(
            Evolution::new(
                title,
                config_copy,
                fitness.clone(),
                selection.clone(),
                crossover.clone(),
                mutation.clone(),
                elitism,
                stop_condition.clone(),
            ),
        )
    }
}

} // verus!

use evolutionary::crossover::NPointsCrossover;
use evolutionary::evolution::StopCondition;
use evolutionary::evolution_builder::{BuildError, EvolutionBuilder};
use evolutionary::fitness::Fitness;
use evolutionary::mutation::BitFlipMutation;
use evolutionary::population::{Bin, GeneCod, Individual, Int};
use evolutionary::selection::TournamentSelection;

#[derive(Clone)]
struct CountOnes;

impl Fitness<Bin> for CountOnes {
    fn calculate_fitness(&self, individual: &Bin) -> i64 {
        individual.get_chromosome().iter().filter(|gene| **gene).count() as i64
    }
}

#[derive(Clone)]
struct SumGenes;

impl Fitness<Int> for SumGenes {
    fn calculate_fitness(&self, individual: &Int) -> i64 {
        individual.get_chromosome().iter().sum()
    }
}

#[derive(Clone)]
struct StopNever;

impl StopCondition for StopNever {
    fn should_stop(&self, _best_fitness: i64, generation: u32, _stagnation: u32) -> bool {
        generation >= 1
    }
}

type BinBuilder =
    EvolutionBuilder<Bin, CountOnes, TournamentSelection, NPointsCrossover, BitFlipMutation, StopNever>;

fn complete_builder() -> BinBuilder {
    EvolutionBuilder::new(10, 5, GeneCod::Bin, ())
        .with_fitness(CountOnes)
        .with_selection(TournamentSelection::default())
        .with_crossover(NPointsCrossover::default())
        .with_mutation(BitFlipMutation::default())
        .with_stop_condition(StopNever)
}

#[test]
fn build_succeeds_when_all_slots_are_set() {
    assert!(complete_builder().build().is_ok());
}

#[test]
fn build_fails_without_fitness() {
    let builder: BinBuilder = EvolutionBuilder::new(10, 5, GeneCod::Bin, ())
        .with_selection(TournamentSelection::default())
        .with_crossover(NPointsCrossover::default())
        .with_mutation(BitFlipMutation::default())
        .with_stop_condition(StopNever);
    assert_eq!(builder.build().err().unwrap(), BuildError::MissingFitness);
}

#[test]
fn build_fails_without_selection() {
    let builder: BinBuilder = EvolutionBuilder::new(10, 5, GeneCod::Bin, ())
        .with_fitness(CountOnes)
        .with_crossover(NPointsCrossover::default())
        .with_mutation(BitFlipMutation::default())
        .with_stop_condition(StopNever);
    assert_eq!(builder.build().err().unwrap(), BuildError::MissingSelection);
}

#[test]
fn build_fails_without_crossover() {
    let builder: BinBuilder = EvolutionBuilder::new(10, 5, GeneCod::Bin, ())
        .with_fitness(CountOnes)
        .with_selection(TournamentSelection::default())
        .with_mutation(BitFlipMutation::default())
        .with_stop_condition(StopNever);
    assert_eq!(builder.build().err().unwrap(), BuildError::MissingCrossover);
}

#[test]
fn build_fails_without_mutation() {
    let builder: BinBuilder = EvolutionBuilder::new(10, 5, GeneCod::Bin, ())
        .with_fitness(CountOnes)
        .with_selection(TournamentSelection::default())
        .with_crossover(NPointsCrossover::default())
        .with_stop_condition(StopNever);
    assert_eq!(builder.build().err().unwrap(), BuildError::MissingMutation);
}

#[test]
fn build_fails_without_stop_condition() {
    let builder: BinBuilder = EvolutionBuilder::new(10, 5, GeneCod::Bin, ())
        .with_fitness(CountOnes)
        .with_selection(TournamentSelection::default())
        .with_crossover(NPointsCrossover::default())
        .with_mutation(BitFlipMutation::default());
    assert_eq!(builder.build().err().unwrap(), BuildError::MissingStopCondition);
}

#[test]
fn build_accepts_empty_population_with_zero_elitism() {
    // a degenerate configuration still builds; only running it is fenced
    let builder: BinBuilder = EvolutionBuilder::new(0, 5, GeneCod::Bin, ())
        .with_fitness(CountOnes)
        .with_selection(TournamentSelection::default())
        .with_crossover(NPointsCrossover::default())
        .with_mutation(BitFlipMutation::default())
        .with_stop_condition(StopNever)
        .with_elitism(0);
    assert!(builder.build().is_ok());
}

#[test]
fn build_fails_on_empty_population_with_default_elitism() {
    // the default elitism of one cannot be captured from zero members
    let builder: BinBuilder = EvolutionBuilder::new(0, 5, GeneCod::Bin, ())
        .with_fitness(CountOnes)
        .with_selection(TournamentSelection::default())
        .with_crossover(NPointsCrossover::default())
        .with_mutation(BitFlipMutation::default())
        .with_stop_condition(StopNever);
    assert_eq!(builder.build().err().unwrap(), BuildError::ElitismExceedsPopulation);
}

#[test]
fn build_fails_when_elitism_exceeds_population() {
    let builder = complete_builder().with_elitism(11);
    assert_eq!(builder.build().err().unwrap(), BuildError::ElitismExceedsPopulation);
}

#[test]
fn build_accepts_an_inverted_integer_range() {
    let builder: EvolutionBuilder<
        Int,
        SumGenes,
        TournamentSelection,
        evolutionary::crossover::DoNothingCrossover,
        evolutionary::mutation::RandomResettingMutation,
        StopNever,
    > = EvolutionBuilder::new(10, 5, GeneCod::Int, (7, 2))
        .with_fitness(SumGenes)
        .with_selection(TournamentSelection::default())
        .with_crossover(evolutionary::crossover::DoNothingCrossover)
        .with_mutation(evolutionary::mutation::RandomResettingMutation::default())
        .with_stop_condition(StopNever);
    // building succeeds; generating members from the range is what the
    // engine's entry points refuse
    assert!(builder.build().is_ok());
}

#[test]
fn one_builder_builds_independent_engines() {
    let builder = complete_builder();
    let mut first = builder.build().unwrap();
    let mut second = builder.build().unwrap();
    first.run();
    second.run();
    assert_eq!(first.current_population.len(), 10);
    assert_eq!(second.current_population.len(), 10);
    assert!(first.metrics.iterations >= 1);
    assert!(second.metrics.iterations >= 1);
}

#[test]
fn build_error_messages_name_the_missing_slot() {
    assert_eq!(BuildError::MissingFitness.as_str(), "no fitness provided");
    assert_eq!(
        BuildError::ElitismExceedsPopulation.as_str(),
        "elitism count exceeds population size"
    );
}

use evolutionary::crossover::NPointsCrossover;
use evolutionary::evolution::StopCondition;
use evolutionary::evolution_builder::EvolutionBuilder;
use evolutionary::fitness::Fitness;
use evolutionary::metrics::Metrics;
use evolutionary::mutation::BitFlipMutation;
use evolutionary::population::{Bin, GeneCod, Individual};
use evolutionary::selection::TournamentSelection;

#[derive(Clone)]
struct CountOnes;

impl Fitness<Bin> for CountOnes {
    fn calculate_fitness(&self, individual: &Bin) -> i64 {
        individual.get_chromosome().iter().filter(|gene| **gene).count() as i64
    }
}

#[derive(Clone)]
struct StopAtBest {
    target: i64,
}

impl StopCondition for StopAtBest {
    fn should_stop(&self, best_fitness: i64, _generation: u32, _stagnation: u32) -> bool {
        best_fitness == self.target
    }
}

#[derive(Clone)]
struct StopAfterGenerations {
    generations: u32,
}

impl StopCondition for StopAfterGenerations {
    fn should_stop(&self, _best_fitness: i64, generation: u32, _stagnation: u32) -> bool {
        generation >= self.generations
    }
}

fn popcount_builder(
    stop_target: i64,
) -> EvolutionBuilder<Bin, CountOnes, TournamentSelection, NPointsCrossover, BitFlipMutation, StopAtBest>
{
    EvolutionBuilder::new(30, 10, GeneCod::Bin, ())
        .with_fitness(CountOnes)
        .with_selection(TournamentSelection::default())
        .with_crossover(NPointsCrossover::default())
        .with_mutation(BitFlipMutation::default())
        .with_title("Max".to_string())
        .with_stop_condition(StopAtBest { target: stop_target })
}

#[test]
fn end_to_end_popcount_maximization() {
    let mut evolution = popcount_builder(10).build().unwrap();

    evolution.run();

    assert_eq!(*evolution.current_best().get_chromosome(), vec![true; 10]);
    assert_eq!(evolution.current_best_fitness(), 10);
}

#[test]
fn population_size_and_genome_length_invariant() {
    let mut evolution = EvolutionBuilder::new(12, 7, GeneCod::Bin, ())
        .with_fitness(CountOnes)
        .with_selection(TournamentSelection::default())
        .with_crossover(NPointsCrossover::default())
        .with_mutation(BitFlipMutation::default())
        .with_stop_condition(StopAfterGenerations { generations: 5 })
        .build()
        .unwrap();

    evolution.start();
    for _ in 0..5 {
        assert_eq!(evolution.current_population.len(), 12);
        for member in &evolution.current_population {
            assert_eq!(member.get_chromosome().len(), 7);
        }
        evolution.next();
    }
    assert_eq!(evolution.current_population.len(), 12);
}

#[test]
fn elitism_keeps_best_fitness_non_decreasing() {
    let mut evolution = EvolutionBuilder::new(20, 12, GeneCod::Bin, ())
        .with_fitness(CountOnes)
        .with_selection(TournamentSelection::default())
        .with_crossover(NPointsCrossover::default())
        .with_mutation(BitFlipMutation { mutation_rate: 2000 })
        .with_elitism(3)
        .with_stop_condition(StopAfterGenerations { generations: 25 })
        .build()
        .unwrap();

    evolution.run();

    let history = &evolution.metrics.best_fitnesses;
    assert!(history.len() >= 2);
    for pair in history.windows(2) {
        assert!(pair[0] <= pair[1]);
    }
}

#[test]
fn current_population_is_sorted_by_fitness() {
    let mut evolution = popcount_builder(10).build().unwrap();
    evolution.run();

    let sorted = evolution.current_population();
    assert_eq!(sorted.len(), 30);
    for pair in sorted.windows(2) {
        assert!(pair[0].get_fitness() <= pair[1].get_fitness());
    }
}

#[test]
fn fitness_average_is_floored_quotient() {
    let mut evolution = EvolutionBuilder::new(2, 3, GeneCod::Bin, ())
        .with_fitness(CountOnes)
        .with_selection(TournamentSelection::default())
        .with_crossover(NPointsCrossover::default())
        .with_mutation(BitFlipMutation::default())
        .with_stop_condition(StopAfterGenerations { generations: 1 })
        .build()
        .unwrap();
    evolution.start();

    let mut low = Bin::new(vec![false, false, false]);
    low.set_fitness(3);
    let mut high = Bin::new(vec![true, true, true]);
    high.set_fitness(4);
    evolution.current_population = vec![low, high];
    assert_eq!(evolution.current_best_fitness(), 4);
    assert_eq!(evolution.current_fitness_average(), 3);

    let mut low = Bin::new(vec![false, false, false]);
    low.set_fitness(-3);
    let mut high = Bin::new(vec![true, true, true]);
    high.set_fitness(-4);
    evolution.current_population = vec![low, high];
    assert_eq!(evolution.current_best_fitness(), -3);
    assert_eq!(evolution.current_fitness_average(), -4);
}

#[test]
fn stagnation_counter_follows_recorded_bests() {
    let mut metrics = Metrics::new();
    metrics.record(5, 2);
    assert_eq!(metrics.gens_without_improvement, 0);
    metrics.record(5, 3);
    assert_eq!(metrics.gens_without_improvement, 1);
    metrics.record(5, 3);
    assert_eq!(metrics.gens_without_improvement, 2);
    metrics.record(6, 3);
    assert_eq!(metrics.gens_without_improvement, 0);
    metrics.record(4, 3);
    assert_eq!(metrics.gens_without_improvement, 0);
    assert_eq!(metrics.iterations, 5);
    assert_eq!(metrics.best_fitnesses, vec![5, 5, 5, 6, 4]);
    assert_eq!(metrics.avg_fitnesses, vec![2, 3, 3, 3, 3]);
}

#[test]
fn metrics_phase_timers_accumulate() {
    let mut metrics = Metrics::new();
    metrics.start_clock();
    metrics.step_start(evolutionary::metrics::Steps::Selection);
    metrics.step_end(evolutionary::metrics::Steps::Selection);
    metrics.end_clock();
    let _ = metrics.step_time(evolutionary::metrics::Steps::Selection);
    let _ = metrics.total_time();
}

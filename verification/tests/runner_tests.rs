use evolutionary::crossover::NPointsCrossover;
use evolutionary::evolution::StopCondition;
use evolutionary::evolution_builder::EvolutionBuilder;
use evolutionary::experiment_runner::ExperimentRunner;
use evolutionary::fitness::Fitness;
use evolutionary::mutation::BitFlipMutation;
use evolutionary::population::{Bin, GeneCod, Individual};
use evolutionary::selection::TournamentSelection;

#[derive(Clone)]
struct CountOnes;

impl Fitness<Bin> for CountOnes {
    fn calculate_fitness(&self, individual: &Bin) -> i64 {
        individual.get_chromosome().iter().filter(|gene| **gene).count() as i64
    }
}

#[derive(Clone)]
struct StopAtTen;

impl StopCondition for StopAtTen {
    fn should_stop(&self, best_fitness: i64, _generation: u32, _stagnation: u32) -> bool {
        best_fitness == 10
    }
}

#[test]
fn runner_aggregates_all_runs() {
    let builder = EvolutionBuilder::new(30, 10, GeneCod::Bin, ())
        .with_fitness(CountOnes)
        .with_selection(TournamentSelection::default())
        .with_crossover(NPointsCrossover::default())
        .with_mutation(BitFlipMutation::default())
        .with_stop_condition(StopAtTen);
    let mut runner = ExperimentRunner::new("popcount".to_string(), 3, builder);

    runner.run();

    assert_eq!(runner.experiment_results.len(), 3);
    let longest = runner
        .experiment_results
        .iter()
        .map(|result| result.iterations)
        .max()
        .unwrap();
    assert_eq!(runner.mean_best_fitnesses.len(), longest as usize);
    assert_eq!(runner.mean_average_fitnesses.len(), longest as usize);
    for result in &runner.experiment_results {
        assert!(result.iterations >= 1);
        assert_eq!(result.best_fitnesses.len(), result.iterations as usize);
        assert_eq!(result.best_found.get_fitness(), 10);
        assert_eq!(*result.best_fitnesses.last().unwrap(), 10);
    }
    // every run ends at the target, so the padded mean ends there too
    assert_eq!(*runner.mean_best_fitnesses.last().unwrap(), 10);

    let digest = runner.experiment_digest();
    assert_eq!(digest.average_score, 10);
    assert!(digest.average_iterations >= 1);
}

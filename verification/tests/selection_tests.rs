use evolutionary::population::{Bin, Individual};
use evolutionary::selection::{
    DoNothingSelection, RankSelection, RouletteSelection, Selection,
    StochasticUniversalSamplingSelection, TournamentSelection,
};

fn scored_population() -> Vec<Bin> {
    let mut population = Vec::new();
    for score in [1i64, 3, 5, 7] {
        let mut member = Bin::new(vec![score % 2 == 0, score % 3 == 0, true]);
        member.set_fitness(score);
        population.push(member);
    }
    population
}

fn assert_pool_is_resampled_from(pool: &Vec<Bin>, population: &Vec<Bin>) {
    assert_eq!(pool.len(), population.len());
    for member in pool {
        assert!(population.iter().any(|source| {
            source.get_chromosome() == member.get_chromosome()
                && source.get_fitness() == member.get_fitness()
        }));
    }
}

#[test]
fn do_nothing_selection_copies_the_population() {
    let population = scored_population();
    let pool = DoNothingSelection.get_mating_pool(&population);
    assert_eq!(pool.len(), population.len());
    for (member, source) in pool.iter().zip(population.iter()) {
        assert_eq!(member.get_chromosome(), source.get_chromosome());
        assert_eq!(member.get_fitness(), source.get_fitness());
    }
}

#[test]
fn tournament_selection_resamples_the_population() {
    let population = scored_population();
    let pool = TournamentSelection::default().get_mating_pool(&population);
    assert_pool_is_resampled_from(&pool, &population);
}

#[test]
fn roulette_selection_resamples_the_population() {
    let population = scored_population();
    let pool = RouletteSelection.get_mating_pool(&population);
    assert_pool_is_resampled_from(&pool, &population);
}

#[test]
fn roulette_selection_copies_when_weights_are_unusable() {
    let mut population = scored_population();
    population[0].set_fitness(-1);
    let pool = RouletteSelection.get_mating_pool(&population);
    for (member, source) in pool.iter().zip(population.iter()) {
        assert_eq!(member.get_chromosome(), source.get_chromosome());
    }
}

#[test]
fn sus_selection_resamples_the_population() {
    let population = scored_population();
    let pool = StochasticUniversalSamplingSelection.get_mating_pool(&population);
    assert_pool_is_resampled_from(&pool, &population);
}

#[test]
fn rank_selection_resamples_the_population() {
    let population = scored_population();
    let pool = RankSelection.get_mating_pool(&population);
    assert_pool_is_resampled_from(&pool, &population);
}

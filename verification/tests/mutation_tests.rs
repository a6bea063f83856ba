use evolutionary::mutation::{
    BitFlipMutation, BitSwapMutation, InsertionMutation, Mutation, PermMutation, RandomResettingMutation,
    ScrambleMutation, SwapMutation,
};
use evolutionary::population::{Bin, Individual, Int, IntPerm};

fn is_perm_of_1_to_n(genes: &Vec<i64>) -> bool {
    let mut sorted = genes.clone();
    sorted.sort();
    sorted.iter().enumerate().all(|(i, v)| *v == i as i64 + 1)
}

#[test]
fn test_insertion() {
    let mut chromosome = vec![1, 2, 3, 4, 5, 6, 7, 9];

    InsertionMutation::insert(&mut chromosome, 0, 3);

    assert_eq!(chromosome, vec![2, 3, 4, 1, 5, 6, 7, 9]);
}

#[test]
fn bit_flip_negates_every_gene_at_full_rate() {
    let mut population = vec![Bin::new(vec![true, false, true, false, true, false, true, false])];

    let mutation = BitFlipMutation { mutation_rate: 10000 };
    mutation.mutate(&mut population);

    assert_eq!(
        *population[0].get_chromosome(),
        vec![false, true, false, true, false, true, false, true]
    );
}

#[test]
fn bit_swap_negates_every_gene_at_full_rate() {
    let mut population = vec![Bin::new(vec![true, false, true, false, true, false, true, false])];

    let mutation = BitSwapMutation { mutation_rate: 10000 };
    mutation.mutate(&mut population);

    assert_eq!(
        *population[0].get_chromosome(),
        vec![false, true, false, true, false, true, false, true]
    );
}

#[test]
fn swap_mutation_keeps_permutation() {
    let mut population = vec![IntPerm { chromosome: vec![4, 2, 7, 1, 5, 3, 6], fitness: 0 }];

    let mutation = SwapMutation::new(10000);
    mutation.mutate(&mut population);

    assert_eq!(population[0].chromosome.len(), 7);
    assert!(is_perm_of_1_to_n(&population[0].chromosome));
}

#[test]
fn perm_mutation_keeps_permutation() {
    let mut population = vec![IntPerm { chromosome: vec![5, 1, 4, 2, 3], fitness: 0 }];

    let mutation = PermMutation::new(10000);
    mutation.mutate(&mut population);

    assert!(is_perm_of_1_to_n(&population[0].chromosome));
}

#[test]
fn insertion_mutation_keeps_permutation() {
    let mut population = vec![IntPerm { chromosome: vec![3, 1, 2, 6, 5, 4], fitness: 0 }];

    let mutation = InsertionMutation { mutation_rate: 10000 };
    mutation.mutate(&mut population);

    assert!(is_perm_of_1_to_n(&population[0].chromosome));
}

#[test]
fn scramble_mutation_keeps_permutation() {
    let mut population = vec![IntPerm { chromosome: vec![8, 3, 1, 7, 2, 6, 5, 4], fitness: 0 }];

    let mutation = ScrambleMutation { mutation_rate: 10000 };
    mutation.mutate(&mut population);

    assert!(is_perm_of_1_to_n(&population[0].chromosome));
}

#[test]
fn random_resetting_stays_in_range() {
    let mut population = vec![Int {
        chromosome: vec![2, 3, 4, 5, 2, 3],
        fitness: 0,
        range: (2, 6),
    }];

    let mutation = RandomResettingMutation { mutation_rate: 10000 };
    mutation.mutate(&mut population);

    assert_eq!(population[0].chromosome.len(), 6);
    assert!(population[0].chromosome.iter().all(|v| (2..6).contains(v)));
    assert_eq!(population[0].range, (2, 6));
}

use evolutionary::crossover::{CXCrossover, NPointsCrossover, OrderedCrossover, PMXCrossover};

#[test]
fn bin_crossover_swap_sections() {
    let mut vec1 = vec![false, false, false, false, false, false];
    let mut vec2 = vec![true, true, true, true, true, true];

    NPointsCrossover::swap_sections(&mut vec1, &mut vec2, 2, 4);

    assert_eq!(vec1, vec![false, false, true, true, false, false]);
    assert_eq!(vec2, vec![true, true, false, false, true, true]);
}

#[test]
fn n_points_crossover_swap_sections() {
    let mut vec1 = vec![false, false, false, false, false, false];
    let mut vec2 = vec![true, true, true, true, true, true];

    NPointsCrossover::swap_sections(&mut vec1, &mut vec2, 2, 4);

    assert_eq!(vec1, vec![false, false, true, true, false, false]);
    assert_eq!(vec2, vec![true, true, false, false, true, true]);
}

#[test]
fn test_cx_crossover1() {
    let mut parent1 = vec![1, 2, 3, 4, 5, 6, 7, 8, 9];
    let mut parent2 = vec![9, 3, 7, 8, 2, 6, 5, 1, 4];

    CXCrossover::cx_crossover(&mut parent1, &mut parent2);

    assert_eq!(parent1, vec![1, 3, 7, 4, 2, 6, 5, 8, 9]);
    assert_eq!(parent2, vec![9, 2, 3, 8, 5, 6, 7, 1, 4]);
}

#[test]
fn test_cx_crossover2() {
    let mut parent1 = vec![9, 8, 2, 1, 7, 4, 5, 10, 6, 3];
    let mut parent2 = vec![1, 2, 3, 4, 5, 6, 7, 8, 9, 10];

    CXCrossover::cx_crossover(&mut parent1, &mut parent2);

    assert_eq!(parent1, vec![9, 2, 3, 1, 5, 4, 7, 8, 6, 10]);
    assert_eq!(parent2, vec![1, 8, 2, 4, 7, 6, 5, 10, 9, 3]);
}

#[test]
fn pmx_matching_1() {
    let mut parent1 = vec![9, 8, 4, 5, 6, 7, 1, 3, 2, 10];
    let mut parent2 = vec![8, 7, 1, 2, 3, 10, 9, 5, 4, 6];

    PMXCrossover::pmx_matching(&mut parent1, &mut parent2, 3, 6);

    assert_eq!(parent1, vec![9, 8, 4, 2, 3, 10, 1, 6, 5, 7]);
    assert_eq!(parent2, vec![8, 10, 1, 5, 6, 7, 9, 2, 4, 3]);
}

#[test]
fn pmx_matching_2() {
    let mut parent1 = vec![1, 2, 3, 4, 5, 6, 7, 8, 9];
    let mut parent2 = vec![9, 3, 7, 8, 2, 6, 5, 1, 4];

    PMXCrossover::pmx_matching(&mut parent1, &mut parent2, 2, 6);

    assert_eq!(parent1, vec![1, 5, 7, 8, 2, 6, 3, 4, 9]);
    assert_eq!(parent2, vec![9, 7, 3, 4, 5, 6, 2, 1, 8]);
}

#[test]
fn pmx_matching_with_loop() {
    let mut parent1 = vec![4, 2, 3, 1, 5];
    let mut parent2 = vec![2, 3, 1, 4, 5];

    PMXCrossover::pmx_matching(&mut parent1, &mut parent2, 1, 4);

    assert_eq!(parent1, vec![2, 3, 1, 4, 5]);
    assert_eq!(parent2, vec![4, 2, 3, 1, 5]);
}

#[test]
fn ordered_crossover_ox_crossover() {
    //                                     |        |
    let mut parent1 = vec![1, 2, 3, 4, 5, 6, 7, 8, 9];
    let mut parent2 = vec![5, 7, 4, 9, 1, 3, 6, 2, 8];

    OrderedCrossover::apply_ox(&mut parent1, &mut parent2, 2, 5);

    assert_eq!(parent1, vec![7, 9, 3, 4, 5, 6, 1, 2, 8]);
    assert_eq!(parent2, vec![2, 5, 4, 9, 1, 3, 6, 7, 8]);
}

#[test]
fn ox_crossover_ox_crossover() {
    // let mut parent1 = vec![1, 2, 3, 4, 5, 6, 7, 8, 9];
    // let mut parent2 = vec![5, 7, 4, 9, 1, 3, 6, 2, 8];

    // OXCrossover::apply_ox(&mut parent1, &mut parent2, 2, 6);

    // assert_eq!(parent1, vec![7, 9, 3, 4, 5, 6, 1, 2, 8]);
    // assert_eq!(parent2, vec![2, 7, 4, 9, 1, 3, 5, 7, 8]);
}

#[test]
fn ox_crossover_fills_cyclically_and_keeps_permutations() {
    let mut parent1 = vec![1, 2, 3, 4, 5, 6, 7, 8, 9];
    let mut parent2 = vec![5, 7, 4, 9, 1, 3, 6, 2, 8];

    evolutionary::crossover::OXCrossover::apply_ox(&mut parent1, &mut parent2, 2, 5);

    assert_eq!(parent1, vec![9, 1, 3, 4, 5, 6, 2, 8, 7]);
    assert_eq!(parent2, vec![5, 6, 4, 9, 1, 3, 7, 8, 2]);
    let mut sorted1 = parent1.clone();
    sorted1.sort();
    let mut sorted2 = parent2.clone();
    sorted2.sort();
    assert_eq!(sorted1, vec![1, 2, 3, 4, 5, 6, 7, 8, 9]);
    assert_eq!(sorted2, vec![1, 2, 3, 4, 5, 6, 7, 8, 9]);
}

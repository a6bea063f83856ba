use evolutionary::utils::{check_permutation, convert_bin, random_distinct_indices, sort_ascending};

#[test]
fn convert_bin_test() {
    let seven_vec = vec![true, true, true, false]; // 1 + 2 + 4
    assert_eq!(convert_bin(&seven_vec), 7);

    let thirteen_vec: Vec<bool> = vec![true, false, true, true]; // 1 + 0 + 4 + 8
    assert_eq!(convert_bin(&thirteen_vec), 13);

    let sixty_four_vec: Vec<bool> = vec![false, false, false, false, false, false, true];
    assert_eq!(convert_bin(&sixty_four_vec), 64);
}

#[test]
fn check_permutation_accepts_and_rejects() {
    assert!(check_permutation(&vec![3, 1, 2]));
    assert!(check_permutation(&vec![1]));
    assert!(!check_permutation(&vec![1, 1, 3]));
    assert!(!check_permutation(&vec![0, 1, 2]));
    assert!(!check_permutation(&vec![1, 2, 4]));
}

#[test]
fn sort_ascending_orders_and_keeps_elements() {
    let mut values = vec![5usize, 1, 4, 1, 3];
    sort_ascending(&mut values);
    assert_eq!(values, vec![1, 1, 3, 4, 5]);
}

#[test]
fn random_distinct_indices_are_distinct_and_bounded() {
    let picked = random_distinct_indices(10, 4);
    assert_eq!(picked.len(), 4);
    for (i, a) in picked.iter().enumerate() {
        assert!(*a < 10);
        for b in picked.iter().skip(i + 1) {
            assert_ne!(a, b);
        }
    }
}

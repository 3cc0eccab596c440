use lib::index_sort::sort_ascending;

#[test]
fn test_sort_ascending_permuted() {
    assert_eq!(sort_ascending(vec![2, 0, 1]), vec![0, 1, 2]);
}

#[test]
fn test_sort_ascending_single_and_empty() {
    assert_eq!(sort_ascending(vec![2]), vec![2]);
    assert_eq!(sort_ascending(Vec::new()), Vec::<usize>::new());
}

#[test]
fn test_sort_ascending_keeps_repeats() {
    assert_eq!(sort_ascending(vec![5, 1, 5, 0, 1]), vec![0, 1, 1, 5, 5]);
}

#[test]
fn test_sort_ascending_already_sorted_and_reversed() {
    assert_eq!(sort_ascending(vec![0, 3, 7, 9]), vec![0, 3, 7, 9]);
    assert_eq!(sort_ascending(vec![9, 7, 3, 0]), vec![0, 3, 7, 9]);
}

#[test]
fn test_sort_ascending_credible_set_order() {
    // hypotheses taken by decreasing probability, handed back by index
    assert_eq!(sort_ascending(vec![2, 1, 0]), vec![0, 1, 2]);
}

use lib::training::{CountTable, TrainingSet};

fn build(n_classes: usize, n_feature_values: Vec<usize>, examples: &[(usize, Vec<usize>)]) -> TrainingSet {
    let n_features = n_feature_values.len();
    let mut t = TrainingSet::new(n_classes, n_features, n_feature_values);
    for (c, x) in examples {
        t = t.add_example(*c, x.clone());
    }
    t
}

fn weather() -> TrainingSet {
    // Features: [outlook(0=sunny,1=overcast,2=rain), wind(0=weak,1=strong)]
    build(
        2,
        vec![3, 2],
        &[
            (0, vec![0, 0]),
            (0, vec![0, 1]),
            (1, vec![1, 0]),
            (1, vec![1, 1]),
            (1, vec![2, 0]),
            (0, vec![2, 1]),
        ],
    )
}

fn check_consistent(t: &CountTable) {
    let total: u64 = t.class_counts().iter().sum();
    assert_eq!(total, t.n_examples() as u64);
    for f in 0..t.n_features() {
        for c in 0..t.n_classes() {
            let s: u64 = t.value_counts(f, c).iter().sum();
            assert_eq!(s, t.class_count(c));
        }
    }
}

#[test]
fn test_class_counts_of_three_examples() {
    let t = build(2, vec![2], &[(0, vec![0]), (0, vec![0]), (1, vec![1])]);
    let counts = t.tally();
    assert_eq!(counts.n_classes(), 2);
    assert_eq!(counts.class_counts(), &vec![2, 1]);
}

#[test]
fn test_new_is_empty() {
    let t = TrainingSet::new(3, 2, vec![4, 5]);
    assert_eq!(t.n_classes(), 3);
    assert_eq!(t.n_features(), 2);
    assert_eq!(t.n_feature_values(0), 4);
    assert_eq!(t.n_feature_values(1), 5);
    assert_eq!(t.n_examples(), 0);
    let counts = t.tally();
    assert_eq!(counts.n_examples(), 0);
    assert_eq!(counts.class_counts(), &vec![0, 0, 0]);
    assert_eq!(counts.value_counts(1, 2), &vec![0, 0, 0, 0, 0]);
}

#[test]
fn test_weather_counts() {
    let counts = weather().tally();
    assert_eq!(counts.n_examples(), 6);
    assert_eq!(counts.n_classes(), 2);
    assert_eq!(counts.n_features(), 2);
    assert_eq!(counts.class_count(0), 3);
    assert_eq!(counts.class_count(1), 3);
    // outlook given "no play": sunny twice, rain once
    assert_eq!(counts.value_counts(0, 0), &vec![2, 0, 1]);
    // outlook given "play": overcast twice, rain once
    assert_eq!(counts.value_counts(0, 1), &vec![0, 2, 1]);
    // wind given "no play": weak once, strong twice
    assert_eq!(counts.value_counts(1, 0), &vec![1, 2]);
    // wind given "play": weak twice, strong once
    assert_eq!(counts.value_counts(1, 1), &vec![2, 1]);
    check_consistent(&counts);
}

#[test]
fn test_separable_counts() {
    let mut t = TrainingSet::new(2, 2, vec![2, 2]);
    for _ in 0..10 {
        t = t.add_example(0, vec![0, 0]);
    }
    for _ in 0..10 {
        t = t.add_example(1, vec![1, 1]);
    }
    let counts = t.tally();
    assert_eq!(counts.class_counts(), &vec![10, 10]);
    assert_eq!(counts.value_counts(0, 0), &vec![10, 0]);
    assert_eq!(counts.value_counts(0, 1), &vec![0, 10]);
    assert_eq!(counts.value_counts(1, 0), &vec![10, 0]);
    assert_eq!(counts.value_counts(1, 1), &vec![0, 10]);
    check_consistent(&counts);
}

#[test]
fn test_three_class_counts() {
    let mut t = TrainingSet::new(3, 1, vec![3]);
    for c in 0..3 {
        for _ in 0..10 {
            t = t.add_example(c, vec![c]);
        }
    }
    let counts = t.tally();
    assert_eq!(counts.class_counts(), &vec![10, 10, 10]);
    assert_eq!(counts.value_counts(0, 0), &vec![10, 0, 0]);
    assert_eq!(counts.value_counts(0, 1), &vec![0, 10, 0]);
    assert_eq!(counts.value_counts(0, 2), &vec![0, 0, 10]);
}

#[test]
fn test_add_example_raises_one_class_and_one_value() {
    let before = weather().tally();
    let after = weather().add_example(1, vec![0, 1]).tally();
    assert_eq!(after.n_examples(), before.n_examples() + 1);
    assert_eq!(after.class_count(0), before.class_count(0));
    assert_eq!(after.class_count(1), before.class_count(1) + 1);
    assert_eq!(after.value_counts(0, 0), before.value_counts(0, 0));
    assert_eq!(after.value_counts(1, 0), before.value_counts(1, 0));
    assert_eq!(after.value_counts(0, 1), &vec![1, 2, 1]);
    assert_eq!(after.value_counts(1, 1), &vec![2, 2]);
}

#[test]
fn test_counts_ignore_order() {
    let forward = weather().tally();
    let backward = build(
        2,
        vec![3, 2],
        &[
            (0, vec![2, 1]),
            (1, vec![2, 0]),
            (1, vec![1, 1]),
            (1, vec![1, 0]),
            (0, vec![0, 1]),
            (0, vec![0, 0]),
        ],
    )
    .tally();
    assert_eq!(forward.class_counts(), backward.class_counts());
    for f in 0..2 {
        for c in 0..2 {
            assert_eq!(forward.value_counts(f, c), backward.value_counts(f, c));
        }
    }
}

#[test]
fn test_values_in_range() {
    assert!(weather().all_values_in_range());
    assert!(TrainingSet::new(2, 1, vec![2]).all_values_in_range());
    let out = build(2, vec![3, 2], &[(0, vec![0, 1]), (1, vec![1, 2])]);
    assert!(!out.all_values_in_range());
    let out_first = build(2, vec![3, 2], &[(0, vec![3, 0])]);
    assert!(!out_first.all_values_in_range());
}

#[test]
fn test_class_without_examples() {
    let t = build(3, vec![2], &[(0, vec![1]), (2, vec![0])]);
    let counts = t.tally();
    assert_eq!(counts.class_counts(), &vec![1, 0, 1]);
    assert_eq!(counts.value_counts(0, 1), &vec![0, 0]);
    check_consistent(&counts);
}

#[test]
fn test_dominant_feature_counts() {
    // Feature 0 is strongly correlated with class
    let mut t = TrainingSet::new(2, 2, vec![3, 2]);
    for _ in 0..20 {
        t = t.add_example(0, vec![0, 0]);
        t = t.add_example(0, vec![0, 1]);
    }
    for _ in 0..20 {
        t = t.add_example(1, vec![2, 0]);
        t = t.add_example(1, vec![2, 1]);
    }
    assert!(t.all_values_in_range());
    let counts = t.tally();
    assert_eq!(counts.n_examples(), 80);
    assert_eq!(counts.class_counts(), &vec![40, 40]);
    assert_eq!(counts.value_counts(0, 0), &vec![40, 0, 0]);
    assert_eq!(counts.value_counts(0, 1), &vec![0, 0, 40]);
    assert_eq!(counts.value_counts(1, 0), &vec![20, 20]);
    assert_eq!(counts.value_counts(1, 1), &vec![20, 20]);
    check_consistent(&counts);
}

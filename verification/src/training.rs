//! Training data for the naive Bayes classifier and the counts it is built from.
//!
//! A `TrainingSet` collects labelled examples of discrete features; `tally`
//! turns it into a `CountTable`: how many examples each class has and, for each
//! feature and class, how many examples of that class show each feature value.
//! These counts are all that the classifier's priors and Dirichlet posteriors
//! are made of.
use vstd::prelude::*;

use crate::counting::{
    class_count, examples_fit, lemma_class_count_bounded, lemma_total_increment, lemma_total_zeros,
    lemma_value_count_bounded, law_push_class_count, law_push_value_count, total, value_count,
    values_fit, ExampleView,
};

verus! {

/// Labelled training examples over a fixed number of classes and features.
pub struct TrainingSet {
    n_classes: usize,
    n_features: usize,
    n_feature_values: Vec<usize>,
    labels: Vec<usize>,
    rows: Vec<Vec<usize>>,
}

impl TrainingSet {
    /// Number of classes.
    pub closed spec fn spec_n_classes(&self) -> nat {
        self.n_classes as nat
    }

    /// Number of features of each example.
    pub closed spec fn spec_n_features(&self) -> nat {
        self.n_features as nat
    }

    /// Number of distinct values of each feature.
    pub closed spec fn spec_cardinalities(&self) -> Seq<usize> {
        self.n_feature_values@
    }

    /// The examples added so far, oldest first.
    pub closed spec fn spec_examples(&self) -> Seq<ExampleView> {
        Seq::new(self.labels@.len(), |i: int| (self.labels@[i], self.rows@[i]@))
    }

    #[verifier::type_invariant]
    spec fn well_formed(&self) -> bool {
        &&& self.n_feature_values@.len() == self.n_features
        &&& self.labels@.len() == self.rows@.len()
        &&& forall|i: int| 0 <= i < self.labels@.len() ==> #[trigger] self.labels@[i] < self.n_classes
        &&& forall|i: int| 0 <= i < self.rows@.len() ==> #[trigger] self.rows@[i]@.len() == self.n_features
    }

    /// Every example has a class below the number of classes and one value per feature.
    proof fn lemma_examples_fit(&self)
        requires
            self.well_formed(),
        ensures
            examples_fit(self.spec_examples(), self.spec_n_classes(), self.spec_n_features()),
    {
        assert forall|i: int| 0 <= i < self.spec_examples().len() implies #[trigger]
            self.spec_examples()[i].0 < self.spec_n_classes()
            && self.spec_examples()[i].1.len() == self.spec_n_features() by {
            assert(self.labels@[i] < self.n_classes);
            assert(self.rows@[i]@.len() == self.n_features);
        }
    }

    /// Every feature value of every example is within the declared number of
    /// values of its feature.
    pub open spec fn values_in_range(&self) -> bool {
        values_fit(self.spec_examples(), self.spec_cardinalities())
    }

    /// An empty training set for `n_classes` classes and `n_features` features,
    /// feature `f` taking the values `0 .. n_feature_values[f]`.
    pub fn new(n_classes: usize, n_features: usize, n_feature_values: Vec<usize>) -> (r: Self)
        requires
            n_feature_values@.len() == n_features,
        ensures
            r.spec_n_classes() == n_classes,
            r.spec_n_features() == n_features,
            r.spec_cardinalities() == n_feature_values@,
            r.spec_examples() == Seq::<ExampleView>::empty(),
            examples_fit(r.spec_examples(), r.spec_n_classes(), r.spec_n_features()),
    {
        let r = TrainingSet {
            n_classes,
            n_features,
            n_feature_values,
            labels: Vec::new(),
            rows: Vec::new(),
        };
        assert(r.spec_examples() =~= Seq::<ExampleView>::empty());
        proof {
            r.lemma_examples_fit();
        }
        r
    }

    /// The training set with one more example, of class `class` with feature
    /// values `features`.
    pub fn add_example(self, class: usize, features: Vec<usize>) -> (r: Self)
        requires
            features@.len() == self.spec_n_features(),
            class < self.spec_n_classes(),
        ensures
            r.spec_n_classes() == self.spec_n_classes(),
            r.spec_n_features() == self.spec_n_features(),
            r.spec_cardinalities() == self.spec_cardinalities(),
            r.spec_examples() == self.spec_examples().push((class, features@)),
            examples_fit(r.spec_examples(), r.spec_n_classes(), r.spec_n_features()),
    {
        proof {
            use_type_invariant(&self);
        }
        let ghost old_examples = self.spec_examples();
        let TrainingSet { n_classes, n_features, n_feature_values, mut labels, mut rows } = self;
        labels.push(class);
        rows.push(features);
        let r = TrainingSet { n_classes, n_features, n_feature_values, labels, rows };
        assert(r.spec_examples() =~= old_examples.push((class, r.rows@.last()@)));
        proof {
            r.lemma_examples_fit();
        }
        r
    }

    /// Number of classes.
    pub fn n_classes(&self) -> (r: usize)
        ensures
            r == self.spec_n_classes(),
    {
        self.n_classes
    }

    /// Number of features of each example.
    pub fn n_features(&self) -> (r: usize)
        ensures
            r == self.spec_n_features(),
    {
        self.n_features
    }

    /// Number of distinct values of feature `f`.
    pub fn n_feature_values(&self, f: usize) -> (r: usize)
        requires
            f < self.spec_n_features(),
        ensures
            r == self.spec_cardinalities()[f as int],
    {
        proof {
            use_type_invariant(self);
        }
        self.n_feature_values[f]
    }

    /// Number of examples added so far.
    pub fn n_examples(&self) -> (r: usize)
        ensures
            r == self.spec_examples().len(),
    {
        self.labels.len()
    }

    /// Whether every feature value of every example is within the declared
    /// number of values of its feature (which `tally` needs).
    pub fn all_values_in_range(&self) -> (r: bool)
        ensures
            r == self.values_in_range(),
    {
        proof {
            use_type_invariant(self);
        }
        let n = self.rows.len();
        let nf = self.n_features;
        let ghost ex = self.spec_examples();
        let mut i: usize = 0;
        while i < n
            invariant
                n == self.rows@.len(),
                n == ex.len(),
                nf == self.n_features,
                ex == self.spec_examples(),
                self.n_feature_values@.len() == nf,
                forall|j: int| 0 <= j < n ==> #[trigger] self.rows@[j]@.len() == nf,
                forall|a: int, f: int|
                    0 <= a < i && 0 <= f < nf ==> #[trigger] ex[a].1[f]
                        < #[trigger] self.n_feature_values@[f],
            decreases n - i,
        {
            let mut f: usize = 0;
            while f < nf
                invariant
                    n == self.rows@.len(),
                    n == ex.len(),
                    i < n,
                    nf == self.n_features,
                    ex == self.spec_examples(),
                    self.n_feature_values@.len() == nf,
                    forall|j: int| 0 <= j < n ==> #[trigger] self.rows@[j]@.len() == nf,
                    forall|a: int, g: int|
                        0 <= a < i && 0 <= g < nf ==> #[trigger] ex[a].1[g]
                            < #[trigger] self.n_feature_values@[g],
                    forall|g: int|
                        0 <= g < f ==> #[trigger] ex[i as int].1[g]
                            < self.n_feature_values@[g],
                decreases nf - f,
            {
                if self.rows[i][f] >= self.n_feature_values[f] {
                    assert(ex[i as int].1[f as int] == self.rows@[i as int]@[f as int]);
                    return false;
                }
                f = f + 1;
            }
            i = i + 1;
        }
        true
    }
}

/// The counts of a training set: per class, and per feature, class and value.
pub struct CountTable {
    n_examples: usize,
    class_counts: Vec<u64>,
    /// `value_counts[f][c][v]`: examples of class `c` whose feature `f` is `v`.
    value_counts: Vec<Vec<Vec<u64>>>,
}

impl CountTable {
    /// Number of examples counted.
    pub closed spec fn spec_n_examples(&self) -> nat {
        self.n_examples as nat
    }

    /// Number of examples of each class.
    pub closed spec fn spec_class_counts(&self) -> Seq<u64> {
        self.class_counts@
    }

    /// Number of features.
    pub closed spec fn spec_n_features(&self) -> nat {
        self.value_counts@.len()
    }

    /// For feature `f` and class `c`, the number of examples of class `c` with
    /// each value of feature `f`.
    pub closed spec fn spec_value_counts(&self, f: int, c: int) -> Seq<u64> {
        self.value_counts@[f]@[c]@
    }

    /// The counts agree with each other: the class counts add up to the number
    /// of examples, and for each feature the value counts of a class add up to
    /// the count of that class.
    pub open spec fn consistent(&self) -> bool {
        &&& total(self.spec_class_counts()) == self.spec_n_examples()
        &&& forall|f: int, c: int|
            0 <= f < self.spec_n_features() && 0 <= c < self.spec_class_counts().len() ==> total(
                #[trigger] self.spec_value_counts(f, c),
            ) == self.spec_class_counts()[c]
    }

    #[verifier::type_invariant]
    spec fn well_formed(&self) -> bool {
        &&& forall|f: int|
            0 <= f < self.value_counts@.len() ==> #[trigger] self.value_counts@[f]@.len()
                == self.class_counts@.len()
        &&& self.consistent()
    }

    /// Number of classes.
    pub fn n_classes(&self) -> (r: usize)
        ensures
            r == self.spec_class_counts().len(),
    {
        self.class_counts.len()
    }

    /// Number of features.
    pub fn n_features(&self) -> (r: usize)
        ensures
            r == self.spec_n_features(),
    {
        self.value_counts.len()
    }

    /// Number of examples counted.
    pub fn n_examples(&self) -> (r: usize)
        ensures
            r == self.spec_n_examples(),
    {
        self.n_examples
    }

    /// Number of examples of class `c`.
    pub fn class_count(&self, c: usize) -> (r: u64)
        requires
            c < self.spec_class_counts().len(),
        ensures
            r == self.spec_class_counts()[c as int],
    {
        self.class_counts[c]
    }

    /// All class counts, by class.
    pub fn class_counts(&self) -> (r: &Vec<u64>)
        ensures
            r@ == self.spec_class_counts(),
    {
        &self.class_counts
    }

    /// For feature `f` and class `c`: the number of examples of class `c`
    /// with each value of feature `f`, by value.
    pub fn value_counts(&self, f: usize, c: usize) -> (r: &Vec<u64>)
        requires
            f < self.spec_n_features(),
            c < self.spec_class_counts().len(),
        ensures
            r@ == self.spec_value_counts(f as int, c as int),
    {
        proof {
            use_type_invariant(self);
        }
        &self.value_counts[f][c]
    }
}

/// A vector of `n` zero counters.
fn zeros(n: usize) -> (r: Vec<u64>)
    ensures
        r@.len() == n,
        forall|i: int| 0 <= i < n ==> r@[i] == 0,
{
    let mut r: Vec<u64> = Vec::new();
    let mut i: usize = 0;
    while i < n
        invariant
            i <= n,
            r@.len() == i,
            forall|j: int| 0 <= j < i ==> r@[j] == 0,
        decreases n - i,
    {
        r.push(0);
        i = i + 1;
    }
    r
}

impl TrainingSet {
    /// Number of examples of each class.
    fn count_classes(&self) -> (r: Vec<u64>)
        ensures
            r@.len() == self.spec_n_classes(),
            forall|c: int| 0 <= c < self.spec_n_classes() ==> #[trigger] r@[c] == class_count(
                self.spec_examples(),
                c,
            ),
            total(r@) == self.spec_examples().len(),
    {
        proof {
            use_type_invariant(self);
        }
        let ghost ex = self.spec_examples();
        let n = self.labels.len();
        let mut counts = zeros(self.n_classes);
        proof {
            lemma_total_zeros(counts@);
        }
        let mut i: usize = 0;
        while i < n
            invariant
                n == self.labels@.len(),
                n == ex.len(),
                ex == self.spec_examples(),
                i <= n,
                counts@.len() == self.n_classes,
                forall|j: int| 0 <= j < n ==> #[trigger] self.labels@[j] < self.n_classes,
                forall|c: int|
                    0 <= c < self.n_classes ==> #[trigger] counts@[c] == class_count(
                        ex.take(i as int),
                        c,
                    ),
                total(counts@) == i,
            decreases n - i,
        {
            let c = self.labels[i];
            proof {
                assert(ex.take(i + 1) =~= ex.take(i as int).push(ex[i as int]));
                assert forall|d: int| 0 <= d < self.n_classes implies class_count(
                    ex.take(i + 1),
                    d,
                ) == class_count(ex.take(i as int), d) + if ex[i as int].0 == d {
                    1int
                } else {
                    0int
                } by {
                    law_push_class_count(ex.take(i as int), ex[i as int], d);
                }
                lemma_class_count_bounded(ex.take(i as int), c as int);
                lemma_total_increment(counts@, c as int);
            }
            let old = counts[c];
            counts.set(c, old + 1);
            i = i + 1;
        }
        assert(ex.take(n as int) =~= ex);
        counts
    }

    /// For feature `f` and class `c`: the number of examples of class `c`
    /// with each value of feature `f`, by value.
    fn count_values(&self, f: usize, c: usize) -> (r: Vec<u64>)
        requires
            f < self.spec_n_features(),
            self.values_in_range(),
        ensures
            r@.len() == self.spec_cardinalities()[f as int],
            forall|v: int|
                0 <= v < r@.len() ==> #[trigger] r@[v] == value_count(
                    self.spec_examples(),
                    f as int,
                    c as int,
                    v,
                ),
            total(r@) == class_count(self.spec_examples(), c as int),
    {
        proof {
            use_type_invariant(self);
        }
        let ghost ex = self.spec_examples();
        let n = self.labels.len();
        let k = self.n_feature_values[f];
        let mut counts = zeros(k);
        proof {
            lemma_total_zeros(counts@);
        }
        let mut i: usize = 0;
        while i < n
            invariant
                n == self.labels@.len(),
                n == self.rows@.len(),
                n == ex.len(),
                ex == self.spec_examples(),
                f < self.n_features,
                k == self.n_feature_values@[f as int],
                self.n_feature_values@.len() == self.n_features,
                values_fit(ex, self.n_feature_values@),
                i <= n,
                counts@.len() == k,
                forall|j: int| 0 <= j < n ==> #[trigger] self.rows@[j]@.len() == self.n_features,
                forall|v: int|
                    0 <= v < k ==> #[trigger] counts@[v] == value_count(
                        ex.take(i as int),
                        f as int,
                        c as int,
                        v,
                    ),
                total(counts@) == class_count(ex.take(i as int), c as int),
            decreases n - i,
        {
            let e = (self.labels[i], self.rows[i][f]);
            proof {
                let s = ex.take(i as int);
                assert(ex.take(i + 1) =~= s.push(ex[i as int]));
                assert forall|v: int| 0 <= v < k implies value_count(
                    ex.take(i + 1),
                    f as int,
                    c as int,
                    v,
                ) == value_count(s, f as int, c as int, v) + if ex[i as int].0 == c
                    && ex[i as int].1[f as int] == v {
                    1int
                } else {
                    0int
                } by {
                    law_push_value_count(s, ex[i as int], f as int, c as int, v);
                }
                law_push_class_count(s, ex[i as int], c as int);
                assert(ex[i as int].1[f as int] < self.n_feature_values@[f as int]);
            }
            if e.0 == c {
                let v = e.1;
                proof {
                    let s = ex.take(i as int);
                    lemma_value_count_bounded(s, f as int, c as int, v as int);
                    lemma_class_count_bounded(s, c as int);
                    lemma_total_increment(counts@, v as int);
                }
                let old = counts[v];
                counts.set(v, old + 1);
            }
            i = i + 1;
        }
        assert(ex.take(n as int) =~= ex);
        counts
    }

    /// Counts the examples: per class, and per feature, class and value.
    ///
    /// Every feature value must be within the declared number of values of its
    /// feature (`all_values_in_range` tells).
    pub fn tally(&self) -> (r: CountTable)
        requires
            self.values_in_range(),
        ensures
            r.spec_n_examples() == self.spec_examples().len(),
            r.spec_n_features() == self.spec_n_features(),
            r.spec_class_counts().len() == self.spec_n_classes(),
            forall|c: int|
                0 <= c < self.spec_n_classes() ==> #[trigger] r.spec_class_counts()[c]
                    == class_count(self.spec_examples(), c),
            forall|f: int, c: int|
                0 <= f < self.spec_n_features() && 0 <= c < self.spec_n_classes() ==> {
                    let counts = #[trigger] r.spec_value_counts(f, c);
                    &&& counts.len() == self.spec_cardinalities()[f]
                    &&& forall|v: int|
                        0 <= v < counts.len() ==> #[trigger] counts[v] == value_count(
                            self.spec_examples(),
                            f,
                            c,
                            v,
                        )
                },
            r.consistent(),
    {
        proof {
            use_type_invariant(self);
        }
        let ghost ex = self.spec_examples();
        let class_counts = self.count_classes();
        let nf = self.n_features;
        let nc = self.n_classes;
        let mut value_counts: Vec<Vec<Vec<u64>>> = Vec::new();
        let mut f: usize = 0;
        while f < nf
            invariant
                nf == self.n_features,
                nc == self.n_classes,
                ex == self.spec_examples(),
                self.values_in_range(),
                self.n_feature_values@.len() == nf,
                f <= nf,
                value_counts@.len() == f,
                class_counts@.len() == nc,
                forall|c: int|
                    0 <= c < nc ==> #[trigger] class_counts@[c] == class_count(ex, c),
                forall|g: int, c: int|
                    0 <= g < f && 0 <= c < nc ==> {
                        let counts = #[trigger] value_counts@[g]@[c]@;
                        &&& counts.len() == self.n_feature_values@[g]
                        &&& forall|v: int|
                            0 <= v < counts.len() ==> #[trigger] counts[v] == value_count(
                                ex,
                                g,
                                c,
                                v,
                            )
                        &&& total(counts) == class_count(ex, c)
                    },
                forall|g: int| 0 <= g < f ==> #[trigger] value_counts@[g]@.len() == nc,
            decreases nf - f,
        {
            let mut per_class: Vec<Vec<u64>> = Vec::new();
            let mut c: usize = 0;
            while c < nc
                invariant
                    nf == self.n_features,
                    nc == self.n_classes,
                    ex == self.spec_examples(),
                    self.values_in_range(),
                    self.n_feature_values@.len() == nf,
                    f < nf,
                    c <= nc,
                    per_class@.len() == c,
                    forall|d: int|
                        0 <= d < c ==> {
                            let counts = #[trigger] per_class@[d]@;
                            &&& counts.len() == self.n_feature_values@[f as int]
                            &&& forall|v: int|
                                0 <= v < counts.len() ==> #[trigger] counts[v] == value_count(
                                    ex,
                                    f as int,
                                    d,
                                    v,
                                )
                            &&& total(counts) == class_count(ex, d)
                        },
                decreases nc - c,
            {
                let counts = self.count_values(f, c);
                per_class.push(counts);
                c = c + 1;
            }
            value_counts.push(per_class);
            f = f + 1;
        }
        let r = CountTable { n_examples: self.labels.len(), class_counts, value_counts };
        assert(r.consistent());
        r
    }
}

} // verus!

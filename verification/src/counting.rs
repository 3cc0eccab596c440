//! Counting over labelled examples: the mathematical definitions that the
//! training code is proved against, and the laws that hold of them.
use vstd::prelude::*;

verus! {

/// A labelled example seen mathematically: its class and its feature values.
pub type ExampleView = (usize, Seq<usize>);

/// Number of examples in `s` whose class is `c`.
pub open spec fn class_count(s: Seq<ExampleView>, c: int) -> nat
    decreases s.len(),
{
    if s.len() == 0 {
        0
    } else {
        class_count(s.drop_last(), c) + if s.last().0 == c {
            1nat
        } else {
            0nat
        }
    }
}

/// Number of examples in `s` whose class is `c` and whose feature `f` has value `v`.
pub open spec fn value_count(s: Seq<ExampleView>, f: int, c: int, v: int) -> nat
    decreases s.len(),
{
    if s.len() == 0 {
        0
    } else {
        value_count(s.drop_last(), f, c, v) + if s.last().0 == c && s.last().1[f] == v {
            1nat
        } else {
            0nat
        }
    }
}

/// Sum of a sequence of counters.
pub open spec fn total(s: Seq<u64>) -> int
    decreases s.len(),
{
    if s.len() == 0 {
        0
    } else {
        total(s.drop_last()) + s.last()
    }
}

/// `class_count(s, 0) + ... + class_count(s, k - 1)`.
pub open spec fn class_count_sum(s: Seq<ExampleView>, k: nat) -> nat
    decreases k,
{
    if k == 0 {
        0
    } else {
        class_count_sum(s, (k - 1) as nat) + class_count(s, k - 1)
    }
}

/// `value_count(s, f, c, 0) + ... + value_count(s, f, c, k - 1)`.
pub open spec fn value_count_sum(s: Seq<ExampleView>, f: int, c: int, k: nat) -> nat
    decreases k,
{
    if k == 0 {
        0
    } else {
        value_count_sum(s, f, c, (k - 1) as nat) + value_count(s, f, c, k - 1)
    }
}

/// Every example has a class below `n_classes` and exactly `n_features` feature values.
pub open spec fn examples_fit(s: Seq<ExampleView>, n_classes: nat, n_features: nat) -> bool {
    forall|i: int|
        0 <= i < s.len() ==> #[trigger] s[i].0 < n_classes && s[i].1.len() == n_features
}

/// Every feature value of every example is below the number of values of its feature.
pub open spec fn values_fit(s: Seq<ExampleView>, cardinalities: Seq<usize>) -> bool {
    forall|i: int, f: int|
        0 <= i < s.len() && 0 <= f < cardinalities.len() ==> #[trigger] s[i].1[f]
            < #[trigger] cardinalities[f]
}

/// A class is never counted more often than there are examples.
pub proof fn lemma_class_count_bounded(s: Seq<ExampleView>, c: int)
    ensures
        class_count(s, c) <= s.len(),
    decreases s.len(),
{
    if s.len() > 0 {
        lemma_class_count_bounded(s.drop_last(), c);
    }
}

/// A feature value is never counted more often than its class.
pub proof fn lemma_value_count_bounded(s: Seq<ExampleView>, f: int, c: int, v: int)
    ensures
        value_count(s, f, c, v) <= class_count(s, c),
    decreases s.len(),
{
    if s.len() > 0 {
        lemma_value_count_bounded(s.drop_last(), f, c, v);
    }
}

/// Adding one to one counter adds one to the sum.
pub proof fn lemma_total_increment(s: Seq<u64>, j: int)
    requires
        0 <= j < s.len(),
        s[j] < u64::MAX,
    ensures
        total(s.update(j, (s[j] + 1) as u64)) == total(s) + 1,
    decreases s.len(),
{
    let t = s.update(j, (s[j] + 1) as u64);
    if j == s.len() - 1 {
        assert(t.drop_last() =~= s.drop_last());
    } else {
        assert(t.drop_last() =~= s.drop_last().update(j, (s[j] + 1) as u64));
        lemma_total_increment(s.drop_last(), j);
    }
}

/// A sequence of zeros sums to zero.
pub proof fn lemma_total_zeros(s: Seq<u64>)
    requires
        forall|i: int| 0 <= i < s.len() ==> s[i] == 0,
    ensures
        total(s) == 0,
    decreases s.len(),
{
    if s.len() > 0 {
        lemma_total_zeros(s.drop_last());
    }
}

/// Adding an example adds it to the count of its own class and to no other class.
///
/// Together with the contracts of `TrainingSet::add_example` (which appends the
/// example) and `TrainingSet::tally` (which counts exactly), this says that one more
/// example raises exactly one class counter by one.
pub proof fn law_push_class_count(s: Seq<ExampleView>, e: ExampleView, c: int)
    ensures
        class_count(s.push(e), c) == class_count(s, c) + if e.0 == c {
            1int
        } else {
            0int
        },
{
    assert(s.push(e).drop_last() =~= s);
}

/// Adding an example adds it, for each feature, to the count of its own class and
/// own value of that feature, and to no other count.
pub proof fn law_push_value_count(s: Seq<ExampleView>, e: ExampleView, f: int, c: int, v: int)
    ensures
        value_count(s.push(e), f, c, v) == value_count(s, f, c, v) + if e.0 == c && e.1[f]
            == v {
            1int
        } else {
            0int
        },
{
    assert(s.push(e).drop_last() =~= s);
}

/// Every example is counted in exactly one class: when all classes are below `k`,
/// the class counts of the classes `0 .. k` add up to the number of examples.
pub proof fn law_class_counts_cover(s: Seq<ExampleView>, k: nat)
    requires
        forall|i: int| 0 <= i < s.len() ==> #[trigger] s[i].0 < k,
    ensures
        class_count_sum(s, k) == s.len(),
    decreases s.len(),
{
    if s.len() > 0 {
        let t = s.drop_last();
        assert forall|i: int| 0 <= i < t.len() implies #[trigger] t[i].0 < k by {
            assert(t[i] == s[i]);
        }
        assert(s[s.len() - 1].0 < k);
        law_class_counts_cover(t, k);
        lemma_class_count_sum_step(t, s.last(), k);
        assert(t.push(s.last()) =~= s);
    } else {
        lemma_class_count_sum_empty(s, k);
    }
}

/// With no examples every class count, and so their sum, is zero.
proof fn lemma_class_count_sum_empty(s: Seq<ExampleView>, k: nat)
    requires
        s.len() == 0,
    ensures
        class_count_sum(s, k) == 0,
    decreases k,
{
    if k > 0 {
        lemma_class_count_sum_empty(s, (k - 1) as nat);
    }
}

/// One more example raises the sum of the class counts over `0 .. k` by one
/// exactly when its class is below `k`.
proof fn lemma_class_count_sum_step(s: Seq<ExampleView>, e: ExampleView, k: nat)
    ensures
        class_count_sum(s.push(e), k) == class_count_sum(s, k) + if e.0 < k {
            1int
        } else {
            0int
        },
    decreases k,
{
    law_push_class_count(s, e, k - 1);
    if k > 0 {
        lemma_class_count_sum_step(s, e, (k - 1) as nat);
    }
}

/// For a feature whose values are all below `k`, the counts of the values `0 .. k`
/// within a class add up to the count of that class.
pub proof fn law_value_counts_cover(s: Seq<ExampleView>, f: int, c: int, k: nat)
    requires
        forall|i: int| 0 <= i < s.len() ==> #[trigger] s[i].1[f] < k,
    ensures
        value_count_sum(s, f, c, k) == class_count(s, c),
    decreases s.len(),
{
    if s.len() > 0 {
        let t = s.drop_last();
        assert forall|i: int| 0 <= i < t.len() implies #[trigger] t[i].1[f] < k by {
            assert(t[i] == s[i]);
        }
        assert(s[s.len() - 1].1[f] < k);
        law_value_counts_cover(t, f, c, k);
        lemma_value_count_sum_step(t, s.last(), f, c, k);
        law_push_class_count(t, s.last(), c);
        assert(t.push(s.last()) =~= s);
    } else {
        lemma_value_count_sum_empty(s, f, c, k);
    }
}

/// With no examples every value count, and so their sum, is zero.
proof fn lemma_value_count_sum_empty(s: Seq<ExampleView>, f: int, c: int, k: nat)
    requires
        s.len() == 0,
    ensures
        value_count_sum(s, f, c, k) == 0,
    decreases k,
{
    if k > 0 {
        lemma_value_count_sum_empty(s, f, c, (k - 1) as nat);
    }
}

/// One more example raises the sum of the value counts over `0 .. k` by one
/// exactly when it has class `c` and its value of feature `f` is below `k`.
proof fn lemma_value_count_sum_step(s: Seq<ExampleView>, e: ExampleView, f: int, c: int, k: nat)
    ensures
        value_count_sum(s.push(e), f, c, k) == value_count_sum(s, f, c, k) + if e.0 == c
            && e.1[f] < k {
            1int
        } else {
            0int
        },
    decreases k,
{
    law_push_value_count(s, e, f, c, k - 1);
    if k > 0 {
        lemma_value_count_sum_step(s, e, f, c, (k - 1) as nat);
    }
}

/// Taking out the example at position `j` takes it out of its class count only.
proof fn lemma_remove_class_count(s: Seq<ExampleView>, j: int, c: int)
    requires
        0 <= j < s.len(),
    ensures
        class_count(s, c) == class_count(s.remove(j), c) + if s[j].0 == c {
            1int
        } else {
            0int
        },
    decreases s.len(),
{
    if j == s.len() - 1 {
        assert(s.remove(j) =~= s.drop_last());
    } else {
        assert(s.remove(j).drop_last() =~= s.drop_last().remove(j));
        assert(s.remove(j).last() == s.last());
        lemma_remove_class_count(s.drop_last(), j, c);
    }
}

/// Taking out the example at position `j` takes it out of its own value count only.
proof fn lemma_remove_value_count(s: Seq<ExampleView>, j: int, f: int, c: int, v: int)
    requires
        0 <= j < s.len(),
    ensures
        value_count(s, f, c, v) == value_count(s.remove(j), f, c, v) + if s[j].0 == c
            && s[j].1[f] == v {
            1int
        } else {
            0int
        },
    decreases s.len(),
{
    if j == s.len() - 1 {
        assert(s.remove(j) =~= s.drop_last());
    } else {
        assert(s.remove(j).drop_last() =~= s.drop_last().remove(j));
        assert(s.remove(j).last() == s.last());
        lemma_remove_value_count(s.drop_last(), j, f, c, v);
    }
}

/// When `s1` and `s2` hold the same examples, each as often, their last-taken
/// example `s1.last()` sits at some position of `s2`, and taking it out of `s2`
/// leaves the same examples as `s1.drop_last()`.
proof fn lemma_same_examples_step(s1: Seq<ExampleView>, s2: Seq<ExampleView>) -> (j: int)
    requires
        s1.len() > 0,
        s1.to_multiset() == s2.to_multiset(),
    ensures
        0 <= j < s2.len(),
        s2[j] == s1.last(),
        s1.drop_last().to_multiset() == s2.remove(j).to_multiset(),
{
    broadcast use {
        vstd::seq_lib::group_to_multiset_ensures,
        vstd::multiset::group_multiset_axioms,
    };
    let t = s1.drop_last();
    let e = s1.last();
    assert(t.push(e) =~= s1);
    assert(s1.to_multiset() == t.to_multiset().insert(e));
    assert(s2.to_multiset().count(e) > 0);
    assert(s2.contains(e));
    let j = choose|j: int| 0 <= j < s2.len() && s2[j] == e;
    assert(s2.remove(j).to_multiset() == s2.to_multiset().remove(e));
    assert(t.to_multiset() =~= t.to_multiset().insert(e).remove(e));
    j
}

/// The counts do not depend on the order of the examples: two sequences that
/// hold the same examples, each as often, give every class the same count.
pub proof fn law_class_count_order_free(s1: Seq<ExampleView>, s2: Seq<ExampleView>, c: int)
    requires
        s1.to_multiset() == s2.to_multiset(),
    ensures
        class_count(s1, c) == class_count(s2, c),
    decreases s1.len(),
{
    broadcast use vstd::seq_lib::group_to_multiset_ensures;

    if s1.len() == 0 {
        assert(s2.len() == s2.to_multiset().len());
        assert(s1.len() == s1.to_multiset().len());
    } else {
        let j = lemma_same_examples_step(s1, s2);
        law_class_count_order_free(s1.drop_last(), s2.remove(j), c);
        lemma_remove_class_count(s2, j, c);
    }
}

/// The counts do not depend on the order of the examples: two sequences that
/// hold the same examples, each as often, give every feature value of every
/// class the same count.
pub proof fn law_value_count_order_free(
    s1: Seq<ExampleView>,
    s2: Seq<ExampleView>,
    f: int,
    c: int,
    v: int,
)
    requires
        s1.to_multiset() == s2.to_multiset(),
    ensures
        value_count(s1, f, c, v) == value_count(s2, f, c, v),
    decreases s1.len(),
{
    broadcast use vstd::seq_lib::group_to_multiset_ensures;

    if s1.len() == 0 {
        assert(s2.len() == s2.to_multiset().len());
        assert(s1.len() == s1.to_multiset().len());
    } else {
        let j = lemma_same_examples_step(s1, s2);
        law_value_count_order_free(s1.drop_last(), s2.remove(j), f, c, v);
        lemma_remove_value_count(s2, j, f, c, v);
    }
}

} // verus!

//! Ascending order for sets of hypothesis indices.
use vstd::prelude::*;

verus! {

/// `s` is in ascending order (repetitions allowed).
pub open spec fn is_ascending(s: Seq<usize>) -> bool {
    forall|i: int, j: int| 0 <= i <= j < s.len() ==> s[i] <= s[j]
}

/// Sorts a vector of indices into ascending order.
///
/// The result holds exactly the same indices, each as often as in `v`.
pub fn sort_ascending(v: Vec<usize>) -> (r: Vec<usize>)
    ensures
        is_ascending(r@),
        r@.to_multiset() == v@.to_multiset(),
        r@.len() == v@.len(),
{
    broadcast use {
        vstd::seq_lib::group_to_multiset_ensures,
        vstd::multiset::group_multiset_axioms,
    };
    let mut r = v;
    let n = r.len();
    let mut i: usize = 1;
    if n == 0 {
        return r;
    }
    while i < n
        invariant
            n == r@.len(),
            1 <= i <= n,
            r@.to_multiset() == v@.to_multiset(),
            forall|a: int, b: int| 0 <= a <= b < i ==> r@[a] <= r@[b],
        decreases n - i,
    {
        let mut j: usize = i;
        while j > 0 && r[j - 1] > r[j]
            invariant
                n == r@.len(),
                1 <= i < n,
                0 <= j <= i,
                r@.to_multiset() == v@.to_multiset(),
                // the prefix up to i, with position j taken out, is ascending
                forall|a: int, b: int|
                    0 <= a <= b <= i && a != j && b != j ==> r@[a] <= r@[b],
                // the element at j is below everything after it in the prefix
                forall|b: int| j < b <= i ==> r@[j as int] < r@[b],
            decreases j,
        {
            let x = r[j - 1];
            let y = r[j];
            let ghost before = r@;
            r.set(j - 1, y);
            r.set(j, x);
            proof {
                let mid = before.update(j - 1, y);
                vstd::seq_lib::to_multiset_update(before, j - 1, y);
                vstd::seq_lib::to_multiset_update(mid, j as int, x);
                assert(r@ == mid.update(j as int, x));
                assert(mid.to_multiset() == before.to_multiset().insert(y).remove(x));
                assert(r@.to_multiset() == mid.to_multiset().insert(x).remove(y));
                assert(before.contains(x) && before.contains(y)) by {
                    assert(before[j - 1] == x);
                    assert(before[j as int] == y);
                }
                vstd::seq_lib::to_multiset_contains(before, x);
                vstd::seq_lib::to_multiset_contains(before, y);
                assert(r@.to_multiset() =~= before.to_multiset());
            }
            j = j - 1;
        }
        i = i + 1;
    }
    r
}

} // verus!

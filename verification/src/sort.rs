//! In-place bubble sort on a slice of `i32`.

use vstd::prelude::*;
use vstd::multiset::group_multiset_axioms;
use vstd::seq_lib::to_multiset_update;

verus! {

/// `s` is in ascending order.
pub open spec fn sorted(s: Seq<i32>) -> bool {
    forall|i: int, j: int| 0 <= i <= j < s.len() ==> s[i] <= s[j]
}

/// `s` with the elements at positions `a` and `b` exchanged.
pub open spec fn exchanged(s: Seq<i32>, a: int, b: int) -> Seq<i32> {
    s.update(a, s[b]).update(b, s[a])
}

/// Exchanging two elements of a sequence keeps every element as often as it was.
pub proof fn lemma_exchange_keeps_elements(s: Seq<i32>, a: int, b: int)
    requires
        0 <= a < s.len(),
        0 <= b < s.len(),
    ensures
        exchanged(s, a, b).to_multiset() == s.to_multiset(),
{
    broadcast use group_multiset_axioms;

    let mid = s.update(a, s[b]);
    to_multiset_update(s, a, s[b]);
    to_multiset_update(mid, b, s[a]);
    assert(s.to_multiset().count(s[a]) > 0 && s.to_multiset().count(s[b]) > 0) by {
        s.to_multiset_ensures();
        assert(s.contains(s[a]) && s.contains(s[b]));
    }
    assert(exchanged(s, a, b).to_multiset() =~= s.to_multiset());
}

/// Sorts `arr` in place, ascending: afterwards it holds the elements it held
/// before, each as often as before, in ascending order.
pub fn bubble_sort(arr: &mut [i32])
    ensures
        final(arr)@.len() == old(arr)@.len(),
        sorted(final(arr)@),
        final(arr)@.to_multiset() == old(arr)@.to_multiset(),
{
    let len: usize = arr.len();
    if len < 2 {
        return;
    }
    let mut i: usize = 0;
    while i < len
        invariant
            i <= len,
            arr@.len() == len,
            arr@.to_multiset() == old(arr)@.to_multiset(),
            // the last `i` places hold their final elements
            forall|a: int, b: int| len - i <= a <= b < len ==> arr@[a] <= arr@[b],
            forall|a: int, b: int| 0 <= a < len - i <= b < len ==> arr@[a] <= arr@[b],
        decreases len - i,
    {
        let mut j: usize = 0;
        while j < len - 1 - i
            invariant
                i < len,
                j <= len - 1 - i,
                arr@.len() == len,
                arr@.to_multiset() == old(arr)@.to_multiset(),
                forall|a: int, b: int| len - i <= a <= b < len ==> arr@[a] <= arr@[b],
                forall|a: int, b: int| 0 <= a < len - i <= b < len ==> arr@[a] <= arr@[b],
                // the largest element seen so far has travelled to place `j`
                forall|a: int| 0 <= a <= j ==> arr@[a] <= arr@[j as int],
            decreases len - 1 - i - j,
        {
            if arr[j] > arr[j + 1] {
                let ghost before = arr@;
                let left: i32 = arr[j];
                let right: i32 = arr[j + 1];
                arr[j] = right;
                arr[j + 1] = left;
                proof {
                    assert(arr@ =~= exchanged(before, j as int, j + 1));
                    lemma_exchange_keeps_elements(before, j as int, j + 1);
                }
            }
            j += 1;
        }
        i += 1;
    }
}

} // verus!

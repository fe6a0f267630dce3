//! Sorting numbers.
use vstd::prelude::*;

verus! {

/// The numbers in ascending order.
pub open spec fn ascending(items: Seq<u64>) -> bool {
    forall|i: int, j: int| 0 <= i <= j < items.len() ==> items[i] <= items[j]
}

/// Puts a number into its place in an ascending list.
fn insert_sorted(items: &mut Vec<u64>, value: u64)
    requires
        ascending(old(items)@),
    ensures
        ascending(final(items)@),
        final(items)@.to_multiset() == old(items)@.to_multiset().insert(value),
{
    let mut i: usize = 0;
    while i < items.len() && items[i] <= value
        invariant
            i <= items@.len(),
            forall|j: int| 0 <= j < i ==> items@[j] <= value,
        decreases items@.len() - i,
    {
        i = i + 1;
    }
    let ghost before = items@;
    items.insert(i, value);
    proof {
        before.to_multiset_ensures();
        vstd::seq_lib::to_multiset_insert(before, i as int, value);
    }
}

/// Sorts numbers in ascending order.
pub fn sort_ascending(items: &Vec<u64>) -> (r: Vec<u64>)
    ensures
        ascending(r@),
        r@.to_multiset() == items@.to_multiset(),
{
    let mut out: Vec<u64> = Vec::new();
    let mut i: usize = 0;
    proof {
        assert(items@.take(0) =~= out@);
    }
    while i < items.len()
        invariant
            i <= items@.len(),
            ascending(out@),
            out@.to_multiset() == items@.take(i as int).to_multiset(),
        decreases items@.len() - i,
    {
        proof {
            assert(items@.take(i + 1) =~= items@.take(i as int).push(items@[i as int]));
            items@.take(i as int).to_multiset_ensures();
        }
        insert_sorted(&mut out, items[i]);
        i = i + 1;
    }
    assert(items@.take(i as int) =~= items@);
    out
}

} // verus!

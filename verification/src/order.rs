//! Ordering element names.
use vstd::prelude::*;
use vstd::relations::{sorted_by, total_ordering};

verus! {

/// `ids` in ascending order.
pub open spec fn ascending(ids: Seq<u64>) -> Seq<u64> {
    ids.sort_by(|a: u64, b: u64| a <= b)
}

/// Two ascending sequences with the same members are the same sequence.
pub proof fn lemma_ascending_unique(sorted: Seq<u64>, ids: Seq<u64>)
    requires
        sorted.to_multiset() == ids.to_multiset(),
        forall|i: int, j: int| 0 <= i < j < sorted.len() ==> sorted[i] <= sorted[j],
    ensures
        sorted == ascending(ids),
{
    let leq = |a: u64, b: u64| a <= b;
    assert(total_ordering(leq));
    ids.lemma_sort_by_ensures(leq);
    assert(sorted_by(sorted, leq));
    vstd::seq_lib::lemma_sorted_unique(sorted, ids.sort_by(leq), leq);
}

/// The members of `ascending(ids)` are those of `ids`, in order.
pub proof fn lemma_ascending(ids: Seq<u64>)
    ensures
        ascending(ids).to_multiset() == ids.to_multiset(),
        ascending(ids).len() == ids.len(),
        forall|i: int, j: int|
            0 <= i < j < ids.len() ==> ascending(ids)[i] <= ascending(ids)[j],
        forall|id: u64| ids.contains(id) <==> #[trigger] ascending(ids).contains(id),
{
    let leq = |a: u64, b: u64| a <= b;
    assert(total_ordering(leq));
    ids.lemma_sort_by_ensures(leq);
    let sorted = ascending(ids);
    assert(sorted_by(sorted, leq));
    broadcast use vstd::seq_lib::group_to_multiset_ensures;
    assert(sorted.to_multiset().len() == ids.to_multiset().len());
    assert forall|i: int, j: int| 0 <= i < j < ids.len() implies sorted[i]
        <= sorted[j] by {
        assert(leq(sorted[i], sorted[j]));
    }
    assert forall|id: u64| ids.contains(id) <==> #[trigger] sorted.contains(id) by {
        assert(ids.to_multiset().count(id) == sorted.to_multiset().count(id));
    }
}

/// Sorts `ids` ascending.
pub fn sort_ids(ids: Vec<u64>) -> (r: Vec<u64>)
    ensures
        r@ == ascending(ids@),
        r@.to_multiset() == ids@.to_multiset(),
        r@.len() == ids@.len(),
        forall|i: int, j: int| 0 <= i < j < r@.len() ==> r@[i] <= r@[j],
{
    let mut sorted: Vec<u64> = Vec::new();
    let mut index: usize = 0;
    broadcast use vstd::seq_lib::group_to_multiset_ensures;

    assert(ids@.take(0) =~= Seq::empty());
    while index < ids.len()
        invariant
            index <= ids@.len(),
            sorted@.len() == index,
            sorted@.to_multiset() == ids@.take(index as int).to_multiset(),
            forall|i: int, j: int| 0 <= i < j < sorted@.len() ==> sorted@[i] <= sorted@[j],
        decreases ids.len() - index,
    {
        let id: u64 = ids[index];
        let mut place: usize = sorted.len();
        while place > 0 && sorted[place - 1] > id
            invariant
                place <= sorted@.len(),
                forall|i: int| place <= i < sorted@.len() ==> sorted@[i] > id,
            decreases place,
        {
            place = place - 1;
        }
        let ghost before = sorted@;
        proof {
            assert forall|i: int| 0 <= i < place implies before[i] <= id by {
                if place > 0 {
                    assert(before[place - 1] <= id);
                    if i < place - 1 {
                        assert(before[i] <= before[place - 1]);
                    }
                }
            }
        }
        sorted.insert(place, id);
        proof {
            vstd::seq_lib::to_multiset_insert(before, place as int, id);
            assert(ids@.take(index as int + 1) =~= ids@.take(index as int).push(id));
            vstd::seq_lib::to_multiset_build(ids@.take(index as int), id);
            assert forall|i: int, j: int| 0 <= i < j < sorted@.len() implies sorted@[i]
                <= sorted@[j] by {
                let a = if i < place {
                    before[i]
                } else if i == place {
                    id
                } else {
                    before[i - 1]
                };
                let b = if j < place {
                    before[j]
                } else if j == place {
                    id
                } else {
                    before[j - 1]
                };
                assert(sorted@[i] == a && sorted@[j] == b);
            }
        }
        index = index + 1;
    }
    proof {
        assert(ids@.take(index as int) =~= ids@);
        lemma_ascending_unique(sorted@, ids@);
    }
    sorted
}

/// Whether two lists of names are equal.
pub fn same_ids(a: &[u64], b: &[u64]) -> (r: bool)
    ensures
        r == (a@ == b@),
{
    if a.len() != b.len() {
        return false;
    }
    let mut index: usize = 0;
    while index < a.len()
        invariant
            index <= a@.len(),
            a@.len() == b@.len(),
            forall|i: int| 0 <= i < index ==> a@[i] == b@[i],
        decreases a.len() - index,
    {
        if a[index] != b[index] {
            return false;
        }
        index = index + 1;
    }
    assert(a@ =~= b@);
    true
}

/// A copy of a list of names.
pub fn dup_ids(ids: &[u64]) -> (r: Vec<u64>)
    ensures
        r@ == ids@,
{
    let mut out: Vec<u64> = Vec::new();
    let mut index: usize = 0;
    while index < ids.len()
        invariant
            index <= ids@.len(),
            out@ == ids@.take(index as int),
        decreases ids.len() - index,
    {
        out.push(ids[index]);
        assert(out@ =~= ids@.take(index as int + 1));
        index = index + 1;
    }
    assert(ids@.take(index as int) =~= ids@);
    out
}

} // verus!

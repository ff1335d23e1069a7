//! Finding the first occurrence of a value (an id, a key) in a sequence,
//! and a fact about filtering.

use vstd::prelude::*;

verus! {

/// The index of the first occurrence of `id` in `ids`, if any.
pub open spec fn first_index<T>(ids: Seq<T>, id: T) -> Option<int>
    decreases ids.len(),
{
    if ids.len() == 0 {
        None
    } else {
        match first_index(ids.drop_last(), id) {
            Some(i) => Some(i),
            None => if ids.last() == id {
                Some(ids.len() - 1)
            } else {
                None
            },
        }
    }
}

/// `first_index` finds the least index that holds `id`, or reports that none does.
pub proof fn lemma_first_index<T>(ids: Seq<T>, id: T)
    ensures
        match first_index(ids, id) {
            Some(i) => 0 <= i < ids.len() && ids[i] == id && forall|k: int|
                0 <= k < i ==> ids[k] != id,
            None => forall|k: int| 0 <= k < ids.len() ==> ids[k] != id,
        },
    decreases ids.len(),
{
    if ids.len() > 0 {
        let init = ids.drop_last();
        lemma_first_index(init, id);
        assert forall|k: int| 0 <= k < init.len() implies init[k] == ids[k] by {}
    }
}

/// An index that holds `id` with no earlier one is `first_index`.
pub proof fn lemma_first_index_at<T>(ids: Seq<T>, id: T, i: int)
    requires
        0 <= i < ids.len(),
        ids[i] == id,
        forall|k: int| 0 <= k < i ==> ids[k] != id,
    ensures
        first_index(ids, id) == Some(i),
{
    lemma_first_index(ids, id);
    match first_index(ids, id) {
        Some(j) => {
            assert(j == i) by {
                if j < i {
                    assert(ids[j] != id);
                } else if j > i {
                    assert(ids[i] != id);
                }
            }
        },
        None => {
            assert(ids[i] != id);
        },
    }
}

/// With no index holding `id`, `first_index` is `None`.
pub proof fn lemma_first_index_none<T>(ids: Seq<T>, id: T)
    requires
        forall|k: int| 0 <= k < ids.len() ==> ids[k] != id,
    ensures
        first_index(ids, id) is None,
{
    lemma_first_index(ids, id);
}


/// Filtering a sequence whose elements all pass changes nothing.
pub proof fn lemma_filter_keeps_all<A>(s: Seq<A>, pred: spec_fn(A) -> bool)
    requires
        forall|k: int| 0 <= k < s.len() ==> pred(#[trigger] s[k]),
    ensures
        s.filter(pred) == s,
    decreases s.len(),
{
    reveal_with_fuel(Seq::<_>::filter, 1);
    if s.len() > 0 {
        let init = s.drop_last();
        assert forall|k: int| 0 <= k < init.len() implies pred(#[trigger] init[k]) by {
            assert(init[k] == s[k]);
        }
        lemma_filter_keeps_all(init, pred);
        assert(init.push(s.last()) =~= s);
    }
}

} // verus!

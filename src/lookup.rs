use vstd::prelude::*;

verus! {

/// The position of the first `id` in `ids`, or -1 when `ids` holds none.
pub open spec fn first_index(ids: Seq<u64>, id: u64) -> int
    decreases ids.len(),
{
    if ids.len() == 0 {
        -1
    } else {
        let j = first_index(ids.drop_last(), id);
        if j >= 0 {
            j
        } else if ids.last() == id {
            ids.len() - 1
        } else {
            -1
        }
    }
}

/// `first_index` is the least position that holds `id`, or -1 when there is none.
pub proof fn lemma_first_index(ids: Seq<u64>, id: u64)
    ensures
        -1 <= first_index(ids, id) < ids.len(),
        first_index(ids, id) >= 0 ==> ids[first_index(ids, id)] == id,
        forall|j: int| 0 <= j < ids.len() && j < first_index(ids, id) ==> ids[j] != id,
        first_index(ids, id) == -1 ==> forall|j: int| 0 <= j < ids.len() ==> ids[j] != id,
    decreases ids.len(),
{
    if ids.len() > 0 {
        lemma_first_index(ids.drop_last(), id);
        assert forall|j: int| 0 <= j < ids.len() - 1 implies ids[j] == ids.drop_last()[j] by {}
    }
}

/// A position that holds `id`, with no `id` before it, is `first_index`.
pub proof fn lemma_first_index_at(ids: Seq<u64>, id: u64, k: int)
    requires
        0 <= k < ids.len(),
        ids[k] == id,
        forall|j: int| 0 <= j < k ==> ids[j] != id,
    ensures
        first_index(ids, id) == k,
{
    lemma_first_index(ids, id);
}

} // verus!

//! Rules of the `(id, content, embedding)` table: its fixed dimension,
//! the delete filter, and how result batches become `(id, value)` matches.

use vstd::prelude::*;
use crate::error::MemoryError;

verus! {

/// Name of the table that holds `(id, content, embedding)` rows.
pub const TABLE_NAME: &'static str = "memory_embeddings";

/// Fixed embedding dimension of the default model.
pub const EMBEDDING_DIM: usize = 384;

/// Accepts a vector for writing or querying only when its length equals the
/// table dimension; otherwise reports both lengths.
pub fn check_dimension<T>(embedding: &[T]) -> (r: Result<(), MemoryError>)
    ensures
        r is Ok <==> embedding@.len() == EMBEDDING_DIM,
        r is Err ==> r == Err::<(), MemoryError>(
            MemoryError::DimensionMismatch { expected: EMBEDDING_DIM, actual: embedding@.len() as usize },
        ),
{
    let n = embedding.len();
    if n != EMBEDDING_DIM {
        Err(MemoryError::DimensionMismatch { expected: EMBEDDING_DIM, actual: n })
    } else {
        Ok(())
    }
}


/// Filter expression that selects every row whose id is `memory_id`.
pub fn delete_predicate(memory_id: &str) -> (r: String)
    ensures
        r@ == "id = '"@ + memory_id@ + "'"@,
{
    let mut r = String::from_str("id = '");
    r.append(memory_id);
    r.append("'");
    r
}

/// The rows of a result batch that carry both an id and a value, in batch
/// order, as `(id, value)`.
pub open spec fn present_rows(ids: Seq<Option<String>>, values: Seq<Option<u64>>, n: int) -> Seq<
    (Seq<char>, u64),
>
    decreases n,
{
    if n <= 0 {
        Seq::empty()
    } else {
        let p = present_rows(ids, values, n - 1);
        if ids[n - 1] is Some && values[n - 1] is Some {
            p.push((ids[n - 1]->Some_0@, values[n - 1]->Some_0))
        } else {
            p
        }
    }
}

/// View of result rows as `(id, value)` over character sequences.
pub open spec fn rows_view(r: Seq<(String, u64)>) -> Seq<(Seq<char>, u64)> {
    r.map_values(|p: (String, u64)| (p.0@, p.1))
}

/// Collects the `(id, value)` matches of one result batch, given its id
/// column and its distance (or score) column; rows where either is null are
/// skipped, the others keep the batch order.
pub fn collect_matches(ids: &Vec<Option<String>>, values: &Vec<Option<u64>>) -> (r: Vec<(String, u64)>)
    requires
        ids@.len() == values@.len(),
    ensures
        rows_view(r@) == present_rows(ids@, values@, ids@.len() as int),
{
    let mut r: Vec<(String, u64)> = Vec::new();
    let mut i: usize = 0;
    while i < ids.len()
        invariant
            i <= ids@.len(),
            ids@.len() == values@.len(),
            rows_view(r@) == present_rows(ids@, values@, i as int),
        decreases ids@.len() - i,
    {
        match (&ids[i], &values[i]) {
            (Some(id), Some(v)) => {
                let ghost prev = r@;
                r.push((id.clone(), *v));
                assert(rows_view(r@) =~= rows_view(prev).push((id@, *v)));
            },
            _ => {},
        }
        i = i + 1;
    }
    r
}

/// Values never decrease from one present row to a later one.
pub open spec fn ascending_values(values: Seq<Option<u64>>) -> bool {
    forall|a: int, b: int|
        0 <= a < b < values.len() && values[a] is Some && values[b] is Some ==> values[a]->Some_0
            <= values[b]->Some_0
}

/// Values never increase from one present row to a later one.
pub open spec fn descending_values(values: Seq<Option<u64>>) -> bool {
    forall|a: int, b: int|
        0 <= a < b < values.len() && values[a] is Some && values[b] is Some ==> values[a]->Some_0
            >= values[b]->Some_0
}

proof fn lemma_present_rows_origin(ids: Seq<Option<String>>, values: Seq<Option<u64>>, n: int, k: int)
    requires
        0 <= n <= ids.len(),
        ids.len() == values.len(),
        0 <= k < present_rows(ids, values, n).len(),
    ensures
        exists|i: int|
            0 <= i < n && values[i] is Some && #[trigger] present_rows(ids, values, n)[k].1 == values[i]->Some_0,
    decreases n,
{
    let p = present_rows(ids, values, n - 1);
    if k < p.len() {
        lemma_present_rows_origin(ids, values, n - 1, k);
        let i = choose|i: int| 0 <= i < n - 1 && values[i] is Some && #[trigger] p[k].1 == values[i]->Some_0;
        assert(present_rows(ids, values, n)[k].1 == values[i]->Some_0);
    } else {
        assert(present_rows(ids, values, n)[k].1 == values[n - 1]->Some_0);
    }
}

/// Collecting keeps the backend's order: a batch whose distances ascend
/// yields matches whose distances ascend.
pub proof fn lemma_collect_keeps_ascending(ids: Seq<Option<String>>, values: Seq<Option<u64>>, n: int)
    requires
        0 <= n <= ids.len(),
        ids.len() == values.len(),
        ascending_values(values),
    ensures
        forall|a: int, b: int|
            0 <= a < b < present_rows(ids, values, n).len() ==> present_rows(ids, values, n)[a].1
                <= present_rows(ids, values, n)[b].1,
    decreases n,
{
    if n > 0 {
        lemma_collect_keeps_ascending(ids, values, n - 1);
        let p = present_rows(ids, values, n - 1);
        let q = present_rows(ids, values, n);
        assert forall|a: int, b: int| 0 <= a < b < q.len() implies q[a].1 <= q[b].1 by {
            if b >= p.len() {
                lemma_present_rows_origin(ids, values, n - 1, a);
                let i = choose|i: int| 0 <= i < n - 1 && values[i] is Some && #[trigger] p[a].1 == values[i]->Some_0;
                assert(q[a] == p[a]);
            } else {
                assert(q[a] == p[a]);
                assert(q[b] == p[b]);
            }
        }
    }
}

/// Collecting keeps the backend's order: a batch whose scores descend
/// yields matches whose scores descend.
pub proof fn lemma_collect_keeps_descending(ids: Seq<Option<String>>, values: Seq<Option<u64>>, n: int)
    requires
        0 <= n <= ids.len(),
        ids.len() == values.len(),
        descending_values(values),
    ensures
        forall|a: int, b: int|
            0 <= a < b < present_rows(ids, values, n).len() ==> present_rows(ids, values, n)[a].1
                >= present_rows(ids, values, n)[b].1,
    decreases n,
{
    if n > 0 {
        lemma_collect_keeps_descending(ids, values, n - 1);
        let p = present_rows(ids, values, n - 1);
        let q = present_rows(ids, values, n);
        assert forall|a: int, b: int| 0 <= a < b < q.len() implies q[a].1 >= q[b].1 by {
            if b >= p.len() {
                lemma_present_rows_origin(ids, values, n - 1, a);
                let i = choose|i: int| 0 <= i < n - 1 && values[i] is Some && #[trigger] p[a].1 == values[i]->Some_0;
                assert(q[a] == p[a]);
            } else {
                assert(q[a] == p[a]);
                assert(q[b] == p[b]);
            }
        }
    }
}

} // verus!

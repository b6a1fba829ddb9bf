//! Insert-if-absent semantics over a table held as an ordered row sequence.
//!
//! A record whose natural key is already present leaves the table untouched;
//! a fresh key is appended.  The definitions are generic over the row type and
//! over the key projection, so every create kind shares one semantics and one
//! idempotence proof.

use vstd::prelude::*;

verus! {

/// Whether some row of `rows` has key `k` under the projection `key`.
pub open spec fn contains_key<T, K>(rows: Seq<T>, key: spec_fn(T) -> K, k: K) -> bool {
    exists|i: int| 0 <= i < rows.len() && key(#[trigger] rows[i]) == k
}

/// One insert-if-absent step.
pub open spec fn insert_row<T, K>(rows: Seq<T>, key: spec_fn(T) -> K, item: T) -> Seq<T> {
    if contains_key(rows, key, key(item)) {
        rows
    } else {
        rows.push(item)
    }
}

/// Insert-if-absent of a whole record list, in list order.
pub open spec fn insert_rows<T, K>(rows: Seq<T>, key: spec_fn(T) -> K, items: Seq<T>) -> Seq<T>
    decreases items.len(),
{
    if items.len() == 0 {
        rows
    } else {
        insert_rows(insert_row(rows, key, items[0]), key, items.skip(1))
    }
}

/// Inserting a concatenation is inserting both parts in turn, so a chunked
/// multi-row insert leaves the same table as one statement over the whole
/// list.
pub proof fn lemma_insert_rows_app<T, K>(
    rows: Seq<T>,
    key: spec_fn(T) -> K,
    a: Seq<T>,
    b: Seq<T>,
)
    ensures
        insert_rows(rows, key, a + b) == insert_rows(insert_rows(rows, key, a), key, b),
    decreases a.len(),
{
    if a.len() == 0 {
        assert(a + b =~= b);
        assert(insert_rows(rows, key, a) == rows);
    } else {
        assert((a + b)[0] == a[0]);
        assert((a + b).skip(1) =~= a.skip(1) + b);
        lemma_insert_rows_app(insert_row(rows, key, a[0]), key, a.skip(1), b);
    }
}

/// Insert-if-absent never removes a key.
pub proof fn lemma_insert_rows_keeps_keys<T, K>(
    rows: Seq<T>,
    key: spec_fn(T) -> K,
    items: Seq<T>,
    k: K,
)
    requires
        contains_key(rows, key, k),
    ensures
        contains_key(insert_rows(rows, key, items), key, k),
    decreases items.len(),
{
    if items.len() > 0 {
        let rows1 = insert_row(rows, key, items[0]);
        let i = choose|i: int| 0 <= i < rows.len() && key(#[trigger] rows[i]) == k;
        assert(key(rows1[i]) == k);
        assert(contains_key(rows1, key, k));
        lemma_insert_rows_keeps_keys(rows1, key, items.skip(1), k);
    }
}

/// After inserting `items`, the key of every item is present.
pub proof fn lemma_insert_rows_all_present<T, K>(rows: Seq<T>, key: spec_fn(T) -> K, items: Seq<T>)
    ensures
        forall|j: int|
            0 <= j < items.len() ==> contains_key(
                insert_rows(rows, key, items),
                key,
                key(#[trigger] items[j]),
            ),
    decreases items.len(),
{
    if items.len() > 0 {
        let rows1 = insert_row(rows, key, items[0]);
        assert(contains_key(rows1, key, key(items[0]))) by {
            if !contains_key(rows, key, key(items[0])) {
                assert(rows1 == rows.push(items[0]));
                assert(key(rows1[rows.len() as int]) == key(items[0]));
            }
        }
        lemma_insert_rows_keeps_keys(rows1, key, items.skip(1), key(items[0]));
        lemma_insert_rows_all_present(rows1, key, items.skip(1));
        assert forall|j: int| 0 <= j < items.len() implies contains_key(
            insert_rows(rows, key, items),
            key,
            key(#[trigger] items[j]),
        ) by {
            if j > 0 {
                assert(items.skip(1)[j - 1] == items[j]);
            }
        }
    }
}

/// Inserting records whose keys are all already present changes nothing.
pub proof fn lemma_insert_rows_noop<T, K>(rows: Seq<T>, key: spec_fn(T) -> K, items: Seq<T>)
    requires
        forall|j: int|
            0 <= j < items.len() ==> contains_key(rows, key, key(#[trigger] items[j])),
    ensures
        insert_rows(rows, key, items) == rows,
    decreases items.len(),
{
    if items.len() > 0 {
        assert(contains_key(rows, key, key(items[0])));
        assert(insert_row(rows, key, items[0]) == rows);
        assert forall|j: int|
            0 <= j < items.skip(1).len() implies contains_key(
            rows,
            key,
            key(#[trigger] items.skip(1)[j]),
        ) by {
            assert(items.skip(1)[j] == items[j + 1]);
        }
        lemma_insert_rows_noop(rows, key, items.skip(1));
    }
}

/// Idempotence of insert-if-absent: applying the same record list twice
/// leaves exactly the rows that applying it once leaves.
pub proof fn lemma_insert_rows_idempotent<T, K>(rows: Seq<T>, key: spec_fn(T) -> K, items: Seq<T>)
    ensures
        insert_rows(insert_rows(rows, key, items), key, items) == insert_rows(rows, key, items),
{
    lemma_insert_rows_all_present(rows, key, items);
    lemma_insert_rows_noop(insert_rows(rows, key, items), key, items);
}

} // verus!

//! What holds of commits, whatever the table and the batches are.

use vstd::prelude::*;
use vstd::set_lib::*;
use crate::conflict::{
    batch_digests, first_row_with, lemma_batch_digests_finite, lemma_store_after_concat,
    newly_inserted, store_after, StoredRows,
};
use crate::record::DigestRow;

verus! {

/// A commit never changes a stored row: a digest keeps the sequence number
/// with which it was first recorded.
pub proof fn lemma_stored_row_is_kept(store: StoredRows, batch: Seq<DigestRow>, digest: Seq<char>)
    requires
        store.dom().contains(digest),
    ensures
        store_after(store, batch).dom().contains(digest),
        store_after(store, batch)[digest] == store[digest],
{
}

/// After a commit the stored digests are those that were stored and those of
/// the batch, and no others.
pub proof fn lemma_digests_after_commit(store: StoredRows, batch: Seq<DigestRow>)
    ensures
        store_after(store, batch).dom() == store.dom().union(batch_digests(batch)),
{
    assert(store_after(store, batch).dom() =~= store.dom().union(batch_digests(batch)));
}

/// The count that a commit returns is the number of rows by which the table
/// grew.
pub proof fn lemma_row_count_after_commit(store: StoredRows, batch: Seq<DigestRow>)
    requires
        store.dom().finite(),
    ensures
        store_after(store, batch).dom().finite(),
        store_after(store, batch).dom().len() == store.dom().len() + newly_inserted(store, batch),
{
    let added = batch_digests(batch).difference(store.dom());
    lemma_batch_digests_finite(batch);
    lemma_set_disjoint_lens(store.dom(), added);
    assert(store.dom().disjoint(added));
    assert(store_after(store, batch).dom() =~= store.dom().union(added));
}

/// Committing a batch a second time changes nothing and adds no row,
/// whatever was stored before the first commit.
pub proof fn lemma_commit_is_idempotent(store: StoredRows, batch: Seq<DigestRow>)
    ensures
        store_after(store_after(store, batch), batch) == store_after(store, batch),
        newly_inserted(store_after(store, batch), batch) == 0,
{
    let once = store_after(store, batch);
    assert(store_after(once, batch) =~= once);
    assert(batch_digests(batch).difference(once.dom()) =~= Set::empty());
}

/// Committing a batch into an empty table leaves exactly one row per
/// distinct digest of the batch, stamped by the earliest record with that
/// digest, and returns their number. Committing the same batch again returns
/// 0 and leaves the table as it is.
pub proof fn lemma_commit_twice_into_empty_table(batch: Seq<DigestRow>)
    ensures
        ({
            let once = store_after(Map::empty(), batch);
            &&& once.dom() == batch_digests(batch)
            &&& once.dom().finite()
            &&& newly_inserted(Map::empty(), batch) == batch_digests(batch).len()
            &&& forall|digest: Seq<char>| #[trigger]
                once.dom().contains(digest) ==> once[digest] == first_row_with(
                    batch,
                    digest,
                ).checkpoint_sequence_number
            &&& store_after(once, batch) == once
            &&& newly_inserted(once, batch) == 0
        }),
{
    let empty = Map::<Seq<char>, i64>::empty();
    let once = store_after(empty, batch);
    lemma_batch_digests_finite(batch);
    assert(once.dom() =~= batch_digests(batch));
    assert(batch_digests(batch).difference(empty.dom()) =~= batch_digests(batch));
    lemma_commit_is_idempotent(empty, batch);
}

/// Committing two batches one after the other into an empty table leaves one
/// row for every digest that occurs in either, and the two returned counts
/// add up to that number of rows: a digest that both batches carry is counted
/// once.
pub proof fn lemma_commits_of_overlapping_batches(a: Seq<DigestRow>, b: Seq<DigestRow>)
    ensures
        ({
            let first = store_after(Map::empty(), a);
            let both = store_after(first, b);
            let either = batch_digests(a).union(batch_digests(b));
            let shared = batch_digests(a).intersect(batch_digests(b));
            &&& both.dom() == either
            &&& either.finite()
            &&& newly_inserted(Map::empty(), a) + newly_inserted(first, b) == either.len()
            &&& either.len() + shared.len() == batch_digests(a).len() + batch_digests(b).len()
        }),
{
    let empty = Map::<Seq<char>, i64>::empty();
    let first = store_after(empty, a);
    let both = store_after(first, b);
    let either = batch_digests(a).union(batch_digests(b));
    lemma_batch_digests_finite(a);
    lemma_batch_digests_finite(b);
    assert(both.dom() =~= either);
    lemma_row_count_after_commit(empty, a);
    lemma_row_count_after_commit(first, b);
    lemma_set_intersect_union_lens(batch_digests(a), batch_digests(b));
}

/// The order in which two batches are committed does not change which
/// digests are stored afterwards, nor how many rows the two commits add
/// together.
pub proof fn lemma_commit_order_keeps_digests(
    store: StoredRows,
    a: Seq<DigestRow>,
    b: Seq<DigestRow>,
)
    ensures
        store_after(store_after(store, a), b).dom() == store_after(store_after(store, b), a).dom(),
        newly_inserted(store, a) + newly_inserted(store_after(store, a), b) == newly_inserted(
            store,
            b,
        ) + newly_inserted(store_after(store, b), a),
{
    let a_then_b = store_after(store_after(store, a), b);
    let b_then_a = store_after(store_after(store, b), a);
    assert(a_then_b.dom() =~= b_then_a.dom());
    lemma_store_after_concat(store, a, b);
    lemma_store_after_concat(store, b, a);
    crate::conflict::lemma_batch_digests_concat(a, b);
    crate::conflict::lemma_batch_digests_concat(b, a);
    assert(batch_digests(a + b) =~= batch_digests(b + a));
}

/// Where two batches give every digest that both carry and that is not
/// stored yet the same sequence number, the order in which they are committed
/// does not change the stored rows at all.
pub proof fn lemma_commit_order_keeps_rows(store: StoredRows, a: Seq<DigestRow>, b: Seq<DigestRow>)
    requires
        forall|digest: Seq<char>|
            batch_digests(a).contains(digest) && batch_digests(b).contains(digest)
                && !store.dom().contains(digest) ==> (#[trigger] first_row_with(
                a,
                digest,
            )).checkpoint_sequence_number == first_row_with(b, digest).checkpoint_sequence_number,
    ensures
        store_after(store_after(store, a), b) == store_after(store_after(store, b), a),
{
    let a_then_b = store_after(store_after(store, a), b);
    let b_then_a = store_after(store_after(store, b), a);
    assert forall|digest: Seq<char>| #[trigger] a_then_b.dom().contains(digest) implies a_then_b[digest]
        == b_then_a[digest] by {
        if batch_digests(a).contains(digest) && batch_digests(b).contains(digest)
            && !store.dom().contains(digest) {
            assert(first_row_with(a, digest).checkpoint_sequence_number == first_row_with(
                b,
                digest,
            ).checkpoint_sequence_number);
        }
    }
    assert(a_then_b =~= b_then_a);
}

} // verus!

//! What a conflict-tolerant bulk insert does to a table keyed by digest,
//! stated over mathematical values.
//!
//! The table is a map from digest to the sequence number stored with it. A
//! batch is a sequence of rows. Inserting a batch adds a row for every digest
//! of the batch that the table does not hold yet, and leaves every row that
//! the table holds as it is.

use vstd::prelude::*;
use vstd::seq_lib::*;
use vstd::set_lib::*;
use crate::record::DigestRow;

verus! {

/// The stored rows: for each digest that has a row, the sequence number in it.
pub type StoredRows = Map<Seq<char>, i64>;

/// The digests of a batch, row by row.
pub open spec fn digests_of(batch: Seq<DigestRow>) -> Seq<Seq<char>> {
    batch.map_values(|row: DigestRow| row.tx_digest)
}

/// The set of digests that occur in a batch.
pub open spec fn batch_digests(batch: Seq<DigestRow>) -> Set<Seq<char>> {
    digests_of(batch).to_set()
}

/// Row `i` of `batch` carries `digest`, and no earlier row does.
pub open spec fn is_first_row_with(batch: Seq<DigestRow>, digest: Seq<char>, i: int) -> bool {
    &&& 0 <= i < batch.len()
    &&& batch[i].tx_digest == digest
    &&& forall|j: int| 0 <= j < i ==> (#[trigger] batch[j]).tx_digest != digest
}

/// The earliest row of `batch` that carries `digest`.
pub open spec fn first_row_with(batch: Seq<DigestRow>, digest: Seq<char>) -> DigestRow {
    batch[choose|i: int| is_first_row_with(batch, digest, i)]
}

/// The table after `batch` was inserted into `store` with conflicts ignored.
///
/// A digest has a row afterwards if it had one before or occurs in the
/// batch. A row that was there keeps its sequence number. A new digest gets
/// the sequence number of the earliest row of the batch that carries it.
pub open spec fn store_after(store: StoredRows, batch: Seq<DigestRow>) -> StoredRows {
    Map::new(
        |digest: Seq<char>| store.dom().contains(digest) || batch_digests(batch).contains(digest),
        |digest: Seq<char>|
            if store.dom().contains(digest) {
                store[digest]
            } else {
                first_row_with(batch, digest).checkpoint_sequence_number
            },
    )
}

/// The number of rows that inserting `batch` into `store` adds: the digests
/// of the batch that `store` does not hold.
pub open spec fn newly_inserted(store: StoredRows, batch: Seq<DigestRow>) -> nat {
    batch_digests(batch).difference(store.dom()).len()
}

/// A digest is among a batch's digests exactly when some row carries it.
pub proof fn lemma_batch_digests_contains(batch: Seq<DigestRow>, digest: Seq<char>)
    ensures
        batch_digests(batch).contains(digest) <==> exists|i: int|
            0 <= i < batch.len() && (#[trigger] batch[i]).tx_digest == digest,
{
    let digests = digests_of(batch);
    if batch_digests(batch).contains(digest) {
        assert(digests.contains(digest));
        let i = choose|i: int| 0 <= i < digests.len() && digests[i] == digest;
        assert(batch[i].tx_digest == digest);
    }
    if exists|i: int| 0 <= i < batch.len() && (#[trigger] batch[i]).tx_digest == digest {
        let i = choose|i: int| 0 <= i < batch.len() && (#[trigger] batch[i]).tx_digest == digest;
        assert(digests[i] == digest);
        assert(digests.contains(digest));
    }
}

/// The digests of a batch are finitely many.
pub proof fn lemma_batch_digests_finite(batch: Seq<DigestRow>)
    ensures
        batch_digests(batch).finite(),
{
    seq_to_set_is_finite(digests_of(batch));
}

/// A digest that row `k` carries has an earliest row, at `k` or before it.
proof fn lemma_earliest_row(batch: Seq<DigestRow>, digest: Seq<char>, k: int) -> (i: int)
    requires
        0 <= k < batch.len(),
        batch[k].tx_digest == digest,
    ensures
        is_first_row_with(batch, digest, i),
        i <= k,
    decreases k,
{
    if exists|j: int| 0 <= j < k && (#[trigger] batch[j]).tx_digest == digest {
        let j = choose|j: int| 0 <= j < k && (#[trigger] batch[j]).tx_digest == digest;
        lemma_earliest_row(batch, digest, j)
    } else {
        k
    }
}

/// A digest of the batch has an earliest row.
pub proof fn lemma_first_row_exists(batch: Seq<DigestRow>, digest: Seq<char>) -> (i: int)
    requires
        batch_digests(batch).contains(digest),
    ensures
        is_first_row_with(batch, digest, i),
        first_row_with(batch, digest) == batch[i],
{
    lemma_batch_digests_contains(batch, digest);
    let k = choose|k: int| 0 <= k < batch.len() && (#[trigger] batch[k]).tx_digest == digest;
    let i = lemma_earliest_row(batch, digest, k);
    lemma_first_row_unique(batch, digest, i);
    i
}

/// The earliest row with a digest is the one that `first_row_with` names.
pub proof fn lemma_first_row_unique(batch: Seq<DigestRow>, digest: Seq<char>, i: int)
    requires
        is_first_row_with(batch, digest, i),
    ensures
        first_row_with(batch, digest) == batch[i],
{
    let c = choose|c: int| is_first_row_with(batch, digest, c);
    assert(is_first_row_with(batch, digest, c));
    if c < i {
        assert(batch[c].tx_digest != digest);
    } else if i < c {
        assert(batch[i].tx_digest != digest);
    }
}

/// The digests of two batches laid end to end are those of either.
pub proof fn lemma_batch_digests_concat(a: Seq<DigestRow>, b: Seq<DigestRow>)
    ensures
        batch_digests(a + b) == batch_digests(a).union(batch_digests(b)),
{
    assert(digests_of(a + b) =~= digests_of(a) + digests_of(b));
    seq_to_set_distributes_over_add(digests_of(a), digests_of(b));
}

/// Inserting `a` and then `b` gives the table that inserting `a + b` at once
/// gives, and adds as many rows.
pub proof fn lemma_store_after_concat(store: StoredRows, a: Seq<DigestRow>, b: Seq<DigestRow>)
    ensures
        store_after(store_after(store, a), b) == store_after(store, a + b),
        newly_inserted(store, a) + newly_inserted(store_after(store, a), b) == newly_inserted(
            store,
            a + b,
        ),
{
    let mid = store_after(store, a);
    let two_steps = store_after(mid, b);
    let one_step = store_after(store, a + b);
    lemma_batch_digests_concat(a, b);
    assert forall|digest: Seq<char>| #[trigger] two_steps.dom().contains(digest) implies two_steps[digest]
        == one_step[digest] by {
        if store.dom().contains(digest) {
        } else if batch_digests(a).contains(digest) {
            let i = lemma_first_row_exists(a, digest);
            assert(is_first_row_with(a + b, digest, i)) by {
                assert forall|j: int| 0 <= j < i implies (#[trigger] (a + b)[j]).tx_digest
                    != digest by {
                    assert((a + b)[j] == a[j]);
                }
                assert((a + b)[i] == a[i]);
            }
            lemma_first_row_unique(a + b, digest, i);
        } else {
            let i = lemma_first_row_exists(b, digest);
            assert(is_first_row_with(a + b, digest, a.len() + i)) by {
                assert forall|j: int| 0 <= j < a.len() + i implies (#[trigger] (a + b)[j]).tx_digest
                    != digest by {
                    if j < a.len() {
                        assert((a + b)[j] == a[j]);
                        lemma_batch_digests_contains(a, digest);
                    } else {
                        assert((a + b)[j] == b[j - a.len()]);
                    }
                }
                assert((a + b)[a.len() + i] == b[i]);
            }
            lemma_first_row_unique(a + b, digest, a.len() + i);
        }
    }
    assert(two_steps =~= one_step);

    let added_first = batch_digests(a).difference(store.dom());
    let added_second = batch_digests(b).difference(mid.dom());
    lemma_batch_digests_finite(a);
    lemma_batch_digests_finite(b);
    lemma_set_disjoint_lens(added_first, added_second);
    assert(added_first.disjoint(added_second));
    assert(added_first.union(added_second) =~= batch_digests(a + b).difference(store.dom()));
}

/// Inserting a single row adds it if its digest is new, and changes nothing
/// otherwise.
pub proof fn lemma_store_after_one(store: StoredRows, row: DigestRow)
    ensures
        store_after(store, seq![row]) == (if store.dom().contains(row.tx_digest) {
            store
        } else {
            store.insert(row.tx_digest, row.checkpoint_sequence_number)
        }),
        newly_inserted(store, seq![row]) == (if store.dom().contains(row.tx_digest) {
            0nat
        } else {
            1nat
        }),
{
    let batch = seq![row];
    let after = store_after(store, batch);
    assert(batch[0] == row);
    assert(is_first_row_with(batch, row.tx_digest, 0));
    lemma_first_row_unique(batch, row.tx_digest, 0);
    lemma_batch_digests_contains(batch, row.tx_digest);
    assert(batch_digests(batch) =~= set![row.tx_digest]) by {
        assert forall|digest: Seq<char>| batch_digests(batch).contains(digest) implies digest
            == row.tx_digest by {
            lemma_batch_digests_contains(batch, digest);
        }
    }
    if store.dom().contains(row.tx_digest) {
        assert(after =~= store);
        assert(batch_digests(batch).difference(store.dom()) =~= Set::empty());
    } else {
        assert(after =~= store.insert(row.tx_digest, row.checkpoint_sequence_number));
        assert(batch_digests(batch).difference(store.dom()) =~= set![row.tx_digest]);
    }
}

/// Inserting a batch with one more row at its end: the batch is inserted,
/// then the row.
pub proof fn lemma_store_after_push(store: StoredRows, batch: Seq<DigestRow>, row: DigestRow)
    ensures
        store_after(store, batch.push(row)) == (if store_after(store, batch).dom().contains(
            row.tx_digest,
        ) {
            store_after(store, batch)
        } else {
            store_after(store, batch).insert(row.tx_digest, row.checkpoint_sequence_number)
        }),
        newly_inserted(store, batch.push(row)) == newly_inserted(store, batch) + (if store_after(
            store,
            batch,
        ).dom().contains(row.tx_digest) {
            0nat
        } else {
            1nat
        }),
{
    assert(batch.push(row) =~= batch + seq![row]);
    lemma_store_after_concat(store, batch, seq![row]);
    lemma_store_after_one(store_after(store, batch), row);
}

/// Inserting no rows changes nothing.
pub proof fn lemma_store_after_nothing(store: StoredRows)
    ensures
        store_after(store, Seq::empty()) == store,
        newly_inserted(store, Seq::empty()) == 0,
{
    let none = Seq::<DigestRow>::empty();
    assert(batch_digests(none) =~= Set::empty()) by {
        assert forall|digest: Seq<char>| !batch_digests(none).contains(digest) by {
            lemma_batch_digests_contains(none, digest);
        }
    }
    assert(store_after(store, none) =~= store);
    assert(batch_digests(none).difference(store.dom()) =~= Set::empty());
}

} // verus!

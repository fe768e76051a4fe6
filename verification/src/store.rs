//! An in-memory table of digests with the uniqueness key of the stored
//! schema, and a connection to it.

use vstd::prelude::*;
use crate::conflict::{
    batch_digests, digests_of, is_first_row_with, lemma_batch_digests_contains,
    lemma_first_row_unique, lemma_store_after_nothing, lemma_store_after_push, newly_inserted,
    store_after, StoredRows,
};
use crate::error::StoreFailure;
use crate::record::{rows_of, StoredTransactionDigest};

verus! {

/// No two of `records` carry the same digest.
pub open spec fn distinct_digests(records: Seq<StoredTransactionDigest>) -> bool {
    forall|i: int, j: int|
        0 <= i < j < records.len() ==> (#[trigger] records[i]).tx_digest@ != (
        #[trigger] records[j]).tx_digest@
}

/// The rows that a sequence of records amounts to when each digest is kept
/// once, at its earliest record.
pub open spec fn stored_rows_of(records: Seq<StoredTransactionDigest>) -> StoredRows {
    store_after(Map::empty(), rows_of(records))
}

/// A table with the columns `tx_digest` and `checkpoint_sequence_number`,
/// keyed uniquely on `tx_digest`.
pub struct DigestTable {
    rows: Vec<StoredTransactionDigest>,
}

/// Where in `records` a digest stands, if anywhere.
fn position_of(records: &Vec<StoredTransactionDigest>, digest: &String) -> (found: Option<usize>)
    ensures
        match found {
            Some(i) => i < records@.len() && records@[i as int].tx_digest@ == digest@,
            None => !batch_digests(rows_of(records@)).contains(digest@),
        },
{
    let mut i: usize = 0;
    while i < records.len()
        invariant
            i <= records@.len(),
            forall|k: int| 0 <= k < i ==> (#[trigger] records@[k]).tx_digest@ != digest@,
        decreases records@.len() - i,
    {
        if records[i].tx_digest == *digest {
            return Some(i);
        }
        i = i + 1;
    }
    proof {
        lemma_batch_digests_contains(rows_of(records@), digest@);
        assert forall|k: int| 0 <= k < rows_of(records@).len() implies (#[trigger] rows_of(
            records@,
        )[k]).tx_digest != digest@ by {
            assert(rows_of(records@)[k] == records@[k]@);
        }
    }
    None
}

/// With distinct digests, the record at `i` is the earliest with its digest,
/// so its sequence number is the stored one.
proof fn lemma_row_at(records: Seq<StoredTransactionDigest>, i: int)
    requires
        distinct_digests(records),
        0 <= i < records.len(),
    ensures
        stored_rows_of(records).dom().contains(records[i].tx_digest@),
        stored_rows_of(records)[records[i].tx_digest@] == records[i].checkpoint_sequence_number,
{
    let rows = rows_of(records);
    let digest = records[i].tx_digest@;
    assert(rows[i] == records[i]@);
    assert(is_first_row_with(rows, digest, i)) by {
        assert forall|j: int| 0 <= j < i implies (#[trigger] rows[j]).tx_digest != digest by {
            assert(rows[j] == records[j]@);
        }
    }
    lemma_first_row_unique(rows, digest, i);
    lemma_batch_digests_contains(rows, digest);
}

/// With distinct digests there are as many stored rows as records.
proof fn lemma_row_count(records: Seq<StoredTransactionDigest>)
    requires
        distinct_digests(records),
    ensures
        stored_rows_of(records).dom().finite(),
        stored_rows_of(records).dom().len() == records.len(),
{
    let digests = digests_of(rows_of(records));
    assert(digests.no_duplicates()) by {
        assert forall|i: int, j: int|
            0 <= i < digests.len() && 0 <= j < digests.len() && i != j implies digests[i]
            != digests[j] by {
            assert(digests[i] == records[i].tx_digest@);
            assert(digests[j] == records[j].tx_digest@);
        }
    }
    digests.unique_seq_to_set();
    vstd::seq_lib::seq_to_set_is_finite(digests);
    assert(stored_rows_of(records).dom() =~= digests.to_set());
}

impl View for DigestTable {
    type V = StoredRows;

    closed spec fn view(&self) -> StoredRows {
        stored_rows_of(self.rows@)
    }
}

impl DigestTable {
    #[verifier::type_invariant]
    spec fn key_is_unique(&self) -> bool {
        distinct_digests(self.rows@)
    }

    /// A table without rows.
    pub fn new() -> (table: DigestTable)
        ensures
            table@ == Map::<Seq<char>, i64>::empty(),
    {
        proof {
            lemma_store_after_nothing(Map::empty());
            assert(rows_of(Seq::<StoredTransactionDigest>::empty()) =~= Seq::empty());
        }
        DigestTable { rows: Vec::new() }
    }

    /// The number of rows.
    pub fn len(&self) -> (count: usize)
        ensures
            self@.dom().finite(),
            count == self@.dom().len(),
    {
        proof {
            use_type_invariant(self);
            lemma_row_count(self.rows@);
        }
        self.rows.len()
    }

    /// The sequence number stored with `digest`, if it has a row.
    pub fn get(&self, digest: &str) -> (stored: Option<i64>)
        ensures
            stored == (if self@.dom().contains(digest@) {
                Some(self@[digest@])
            } else {
                None
            }),
    {
        let key: String = digest.to_owned();
        match position_of(&self.rows, &key) {
            Some(i) => {
                proof {
                    use_type_invariant(self);
                    lemma_row_at(self.rows@, i as int);
                }
                Some(self.rows[i].checkpoint_sequence_number)
            },
            None => None,
        }
    }

    /// Inserts every row of `batch` whose digest has no row yet, and skips
    /// the others without touching the rows that are there. Returns the
    /// number of rows added.
    pub fn insert_ignoring_conflicts(&mut self, batch: &Vec<StoredTransactionDigest>) -> (inserted:
        usize)
        ensures
            final(self)@ == store_after(old(self)@, rows_of(batch@)),
            inserted == newly_inserted(old(self)@, rows_of(batch@)),
    {
        proof {
            use_type_invariant(&*self);
        }
        let ghost before = self@;
        let ghost incoming = rows_of(batch@);
        let mut rows: Vec<StoredTransactionDigest> = Vec::new();
        std::mem::swap(&mut rows, &mut self.rows);
        let mut inserted: usize = 0;
        let mut i: usize = 0;
        proof {
            lemma_store_after_nothing(before);
            assert(incoming.take(0) =~= Seq::empty());
        }
        while i < batch.len()
            invariant
                i <= batch@.len(),
                inserted <= i,
                incoming == rows_of(batch@),
                distinct_digests(rows@),
                stored_rows_of(rows@) == store_after(before, incoming.take(i as int)),
                inserted == newly_inserted(before, incoming.take(i as int)),
            decreases batch@.len() - i,
        {
            let ghost held = rows@;
            let ghost row = batch@[i as int]@;
            proof {
                assert(incoming[i as int] == row);
                assert(incoming.take(i + 1) =~= incoming.take(i as int).push(row));
                lemma_store_after_push(before, incoming.take(i as int), row);
            }
            let found = position_of(&rows, &batch[i].tx_digest);
            if found.is_none() {
                rows.push(batch[i].duplicate());
                inserted = inserted + 1;
                proof {
                    assert(rows_of(rows@) =~= rows_of(held).push(row));
                    lemma_store_after_push(Map::empty(), rows_of(held), row);
                    assert forall|a: int, b: int| 0 <= a < b < rows@.len() implies (
                    #[trigger] rows@[a]).tx_digest@ != (#[trigger] rows@[b]).tx_digest@ by {
                        if b == held.len() {
                            lemma_batch_digests_contains(rows_of(held), row.tx_digest);
                            assert(rows_of(held)[a] == held[a]@);
                        }
                    }
                }
            } else {
                proof {
                    lemma_row_at(held, found.unwrap() as int);
                }
            }
            i = i + 1;
        }
        proof {
            assert(incoming.take(batch@.len() as int) =~= incoming);
        }
        self.rows = rows;
        inserted
    }
}

/// What is known of a connection: the rows of the table behind it, and
/// whether the table can be reached through it.
pub struct ConnectionState {
    pub rows: StoredRows,
    pub reachable: bool,
}

/// A connection to a digest table. Writes go through while the table can be
/// reached, and fail as a whole once it cannot.
pub struct Connection {
    table: DigestTable,
    reachable: bool,
}

impl View for Connection {
    type V = ConnectionState;

    closed spec fn view(&self) -> ConnectionState {
        ConnectionState { rows: self.table@, reachable: self.reachable }
    }
}

impl Connection {
    /// An open connection to `table`.
    pub fn open(table: DigestTable) -> (conn: Connection)
        ensures
            conn@ == (ConnectionState { rows: table@, reachable: true }),
    {
        Connection { table, reachable: true }
    }

    /// Cuts the connection: the rows stay as they are, and every later write
    /// fails.
    pub fn sever(&mut self)
        ensures
            final(self)@ == (ConnectionState { rows: old(self)@.rows, reachable: false }),
    {
        self.reachable = false;
    }

    /// Whether the table can be reached.
    pub fn is_open(&self) -> (open: bool)
        ensures
            open == self@.reachable,
    {
        self.reachable
    }

    /// The table behind the connection, to read.
    pub fn table(&self) -> (table: &DigestTable)
        ensures
            table@ == self@.rows,
    {
        &self.table
    }

    /// One bulk insert of `batch` that skips every digest that is stored,
    /// with the number of rows added. On a connection that was cut it fails
    /// and changes nothing.
    pub fn insert_ignoring_conflicts(&mut self, batch: &Vec<StoredTransactionDigest>) -> (reply:
        Result<usize, StoreFailure>)
        ensures
            reply is Ok <==> old(self)@.reachable,
            match reply {
                Ok(inserted) => {
                    &&& inserted == newly_inserted(old(self)@.rows, rows_of(batch@))
                    &&& final(self)@ == (ConnectionState {
                        rows: store_after(old(self)@.rows, rows_of(batch@)),
                        reachable: true,
                    })
                },
                Err(failure) => {
                    &&& failure == StoreFailure::Connectivity
                    &&& final(self)@ == old(self)@
                },
            },
    {
        if !self.reachable {
            return Err(StoreFailure::Connectivity);
        }
        let inserted = self.table.insert_ignoring_conflicts(batch);
        Ok(inserted)
    }
}

} // verus!

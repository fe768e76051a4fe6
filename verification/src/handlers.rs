//! The handler: extraction of records from a checkpoint, accumulation of
//! records into a batch, and the commit of a batch.

use vstd::prelude::*;
use crate::checkpoint::Checkpoint;
use crate::conflict::{newly_inserted, store_after};
use crate::error::{IndexerError, StoreFailure};
use crate::record::{rows_of, StoredTransactionDigest};
use crate::store::{Connection, ConnectionState};

verus! {

/// Extracts the transaction digests of checkpoints and commits them.
pub struct TransactionDigestHandler;

impl TransactionDigestHandler {
    /// The name under which a pipeline knows this handler.
    pub const NAME: &'static str = "transaction_digest_handler";

    /// One record per transaction of `checkpoint`, in transaction order, each
    /// with that transaction's digest and the checkpoint's sequence number,
    /// unchanged.
    ///
    /// Fails with `Extraction` exactly on a checkpoint that is not
    /// extractable: one that has a transaction and a sequence number above
    /// `i64::MAX`, which no record can carry.
    pub fn process(&self, checkpoint: &Checkpoint) -> (extracted: Result<
        Vec<StoredTransactionDigest>,
        IndexerError,
    >)
        ensures
            extracted is Ok <==> checkpoint.is_extractable(),
            match extracted {
                Ok(records) => {
                    &&& records@.len() == checkpoint.transactions@.len()
                    &&& forall|i: int|
                        0 <= i < records@.len() ==> {
                            &&& (#[trigger] records@[i]).tx_digest@
                                == checkpoint.transactions@[i].digest@
                            &&& records@[i].checkpoint_sequence_number as int
                                == checkpoint.sequence_number as int
                        }
                },
                Err(error) => error == IndexerError::Extraction,
            },
    {
        let mut records: Vec<StoredTransactionDigest> = Vec::new();
        if checkpoint.transactions.len() == 0 {
            return Ok(records);
        }
        if checkpoint.sequence_number > 0x7fff_ffff_ffff_ffff {
            return Err(IndexerError::Extraction);
        }
        let checkpoint_seq: i64 = checkpoint.sequence_number as i64;
        let mut i: usize = 0;
        while i < checkpoint.transactions.len()
            invariant
                i <= checkpoint.transactions@.len(),
                checkpoint_seq as int == checkpoint.sequence_number as int,
                records@.len() == i,
                forall|k: int|
                    0 <= k < i ==> {
                        &&& (#[trigger] records@[k]).tx_digest@
                            == checkpoint.transactions@[k].digest@
                        &&& records@[k].checkpoint_sequence_number == checkpoint_seq
                    },
            decreases checkpoint.transactions@.len() - i,
        {
            records.push(
                StoredTransactionDigest {
                    tx_digest: checkpoint.transactions[i].digest.clone(),
                    checkpoint_sequence_number: checkpoint_seq,
                },
            );
            i = i + 1;
        }
        Ok(records)
    }

    /// Appends `values` to `batch`, keeping both orders. Nothing is dropped or
    /// merged here: a digest that occurs twice stays twice.
    pub fn batch(batch: &mut Vec<StoredTransactionDigest>, values: Vec<StoredTransactionDigest>)
        ensures
            final(batch)@ == old(batch)@ + values@,
    {
        let mut values = values;
        batch.append(&mut values);
    }

    /// Commits `batch` through `conn` in one bulk insert that ignores
    /// conflicts on the digest, and returns the number of rows added.
    ///
    /// `conn` leads to this library's in-memory table. A commit against a
    /// database sends the same insert there and hands the database's reply
    /// to [`Self::commit_outcome`].
    ///
    /// While the table can be reached the commit succeeds: every digest of
    /// the batch that was not stored gets a row, from the earliest record that
    /// carries it, and every stored row stays as it was. On a connection that
    /// was cut the commit fails, and neither the table nor the batch changes.
    pub fn commit(batch: &Vec<StoredTransactionDigest>, conn: &mut Connection) -> (outcome: Result<
        usize,
        IndexerError,
    >)
        ensures
            outcome is Ok <==> old(conn)@.reachable,
            match outcome {
                Ok(inserted) => {
                    &&& inserted == newly_inserted(old(conn)@.rows, rows_of(batch@))
                    &&& final(conn)@ == (ConnectionState {
                        rows: store_after(old(conn)@.rows, rows_of(batch@)),
                        reachable: true,
                    })
                },
                Err(error) => {
                    &&& error == IndexerError::Commit(StoreFailure::Connectivity)
                    &&& final(conn)@ == old(conn)@
                },
            },
    {
        let reply = conn.insert_ignoring_conflicts(batch);
        Self::commit_outcome(reply)
    }

    /// What a commit returns for the store's reply to its bulk insert: the
    /// count as it is, and every failure as a commit error that names it.
    pub fn commit_outcome(reply: Result<usize, StoreFailure>) -> (outcome: Result<
        usize,
        IndexerError,
    >)
        ensures
            outcome == (match reply {
                Ok(inserted) => Ok::<usize, IndexerError>(inserted),
                Err(failure) => Err::<usize, IndexerError>(IndexerError::Commit(failure)),
            }),
    {
        match reply {
            Ok(inserted) => Ok(inserted),
            Err(failure) => Err(IndexerError::Commit(failure)),
        }
    }
}

} // verus!

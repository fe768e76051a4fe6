//! The record that is extracted per transaction and stored per digest.

use vstd::prelude::*;

verus! {

/// A row of the digest table as a mathematical value: the digest's characters
/// and the sequence number of the checkpoint the transaction was seen in.
pub struct DigestRow {
    pub tx_digest: Seq<char>,
    pub checkpoint_sequence_number: i64,
}

/// One extracted transaction digest, stamped with its checkpoint.
///
/// `tx_digest` is the key of the stored set. It is opaque: nothing here looks
/// inside it, two digests are the same key exactly when they are the same text.
#[derive(Debug, Clone, PartialEq, Eq)]
pub struct StoredTransactionDigest {
    pub tx_digest: String,
    pub checkpoint_sequence_number: i64,
}

impl View for StoredTransactionDigest {
    type V = DigestRow;

    open spec fn view(&self) -> DigestRow {
        DigestRow {
            tx_digest: self.tx_digest@,
            checkpoint_sequence_number: self.checkpoint_sequence_number,
        }
    }
}

/// The rows that a sequence of records stands for, in the same order.
pub open spec fn rows_of(records: Seq<StoredTransactionDigest>) -> Seq<DigestRow> {
    records.map_values(|record: StoredTransactionDigest| record@)
}

impl StoredTransactionDigest {
    /// A second record with the same digest and the same sequence number.
    pub fn duplicate(&self) -> (copy: StoredTransactionDigest)
        ensures
            copy@ == self@,
    {
        StoredTransactionDigest {
            tx_digest: self.tx_digest.clone(),
            checkpoint_sequence_number: self.checkpoint_sequence_number,
        }
    }
}

} // verus!

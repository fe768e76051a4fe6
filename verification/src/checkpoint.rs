//! The part of a checkpoint that digest extraction reads.

use vstd::prelude::*;

verus! {

/// A transaction of a checkpoint, known by its digest.
#[derive(Debug, Clone, PartialEq, Eq)]
pub struct CheckpointTransaction {
    pub digest: String,
}

/// A checkpoint: its sequence number and its transactions in their order.
#[derive(Debug, Clone, PartialEq, Eq)]
pub struct Checkpoint {
    pub sequence_number: u64,
    pub transactions: Vec<CheckpointTransaction>,
}

impl Checkpoint {
    /// Whether records can be extracted: each record carries the sequence
    /// number as a signed 64-bit integer, so a checkpoint with a transaction
    /// needs a sequence number of at most `i64::MAX`. A checkpoint without
    /// transactions gives no record and is extractable whatever its number.
    pub open spec fn is_extractable(&self) -> bool {
        self.transactions@.len() == 0 || self.sequence_number <= i64::MAX
    }
}

} // verus!

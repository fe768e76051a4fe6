//! What can go wrong: a checkpoint that cannot be read, or a store that
//! refuses a write.

use vstd::prelude::*;

verus! {

/// Why the store did not carry out a bulk write. A digest that is already
/// stored is no such reason: the write skips it.
#[derive(Debug, Clone, Copy, PartialEq, Eq, Structural)]
pub enum StoreFailure {
    /// The store could not be reached, or the connection to it was lost.
    Connectivity,
    /// The store rejected a row for a constraint other than digest uniqueness.
    Constraint,
    /// The rows could not be put into, or read back from, the store's format.
    Serialization,
    /// The write failed for any other reason.
    Other,
}

/// The two kinds of error of the handler.
#[derive(Debug, Clone, Copy, PartialEq, Eq, Structural)]
pub enum IndexerError {
    /// The checkpoint is malformed. This is a defect upstream: delivering the
    /// same checkpoint again will not help.
    Extraction,
    /// The bulk write of a batch failed. The batch is unchanged, and
    /// committing it again is safe.
    Commit(StoreFailure),
}

impl IndexerError {
    /// Whether doing the same thing again can succeed: true of a failed
    /// commit, false of a malformed checkpoint.
    pub fn is_retriable(&self) -> (retriable: bool)
        ensures
            retriable == (*self is Commit),
    {
        match self {
            IndexerError::Extraction => false,
            IndexerError::Commit(_) => true,
        }
    }
}

} // verus!

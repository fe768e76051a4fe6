//! Extraction of transaction digests from checkpoints, and their idempotent
//! commit to a table keyed by digest.
//!
//! A checkpoint gives one record per transaction. Records of one or more
//! checkpoints are gathered into a batch, and a batch is committed in one
//! bulk insert that skips every digest that is already stored. A checkpoint
//! that is delivered again therefore adds nothing and changes nothing.

pub mod checkpoint;
pub mod conflict;
pub mod error;
pub mod handlers;
pub mod laws;
pub mod record;
pub mod store;

pub use crate::checkpoint::{Checkpoint, CheckpointTransaction};
pub use crate::error::{IndexerError, StoreFailure};
pub use crate::handlers::TransactionDigestHandler;
pub use crate::record::StoredTransactionDigest;
pub use crate::store::{Connection, DigestTable};

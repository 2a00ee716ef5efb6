//! Offline media cache: a verified catalog of media records with
//! single-flight, cancellable download bookkeeping.
//!
//! The catalog holds one record per identifier and answers paginated,
//! filtered and searched queries over them.  The download side is a pair of
//! state machines: a coordinator that enforces at most one in-flight
//! download process-wide, and an engine that decides, chunk by chunk, what
//! to write, when to report progress, and how to unwind on failure or
//! cancellation.  All file and network traffic is performed by the
//! surrounding application; this crate decides and accounts.

use vstd::prelude::*;

pub mod catalog;
pub mod engine;
pub mod manager;
pub mod paths;
pub mod progress;
pub mod stats;
pub mod media;
pub mod pages;
pub mod search;

verus! {

/// The failures a storage operation can surface.
#[derive(Debug, Clone, PartialEq, Eq)]
pub enum StorageError {
    /// A second mutating download was attempted while one was active.
    AlreadyInProgress,
    /// The network transfer failed; the payload carries the transport's words.
    TransportError(String),
    /// The caller cancelled the download.
    Cancelled,
    /// The persisted metadata document exists but does not parse.
    CorruptMetadata(String),
    /// A filesystem read, write or delete failed.
    IOError(String),
}

impl StorageError {
    /// A short human-readable account of the error.
    pub fn message(&self) -> (r: String)
        ensures
            r@.len() > 0,
    {
        let m: String = match self {
            StorageError::AlreadyInProgress => String::from_str("download already in progress"),
            StorageError::TransportError(w) => String::from_str("transport error: ").concat(
                w.as_str(),
            ),
            StorageError::Cancelled => String::from_str("download cancelled"),
            StorageError::CorruptMetadata(w) => String::from_str("corrupt metadata: ").concat(
                w.as_str(),
            ),
            StorageError::IOError(w) => String::from_str("io error: ").concat(w.as_str()),
        };
        proof {
            reveal_strlit("download already in progress");
            reveal_strlit("transport error: ");
            reveal_strlit("download cancelled");
            reveal_strlit("corrupt metadata: ");
            reveal_strlit("io error: ");
        }
        m
    }
}

} // verus!

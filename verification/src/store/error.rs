//! How the store fails.
use vstd::prelude::*;

verus! {

/// The part of the store that an error concerns.
#[derive(Clone, Copy, Debug, PartialEq, Eq, Structural)]
pub enum ErrorSubject {
    /// The store as a whole.
    Store,
    /// The vote.
    Vote,
    /// The log.
    Logs,
    /// The mark of what was purged.
    LastPurged,
    /// A snapshot.
    Snapshot,
}

/// What the store was doing when it failed.
#[derive(Clone, Copy, Debug, PartialEq, Eq, Structural)]
pub enum ErrorVerb {
    Read,
    Write,
    Delete,
}

/// A failure of the store. None is recovered from here: the consensus engine
/// decides whether the node goes on.
#[derive(Debug, PartialEq, Eq)]
pub enum StorageError {
    /// The tree on disk could not be read or written.
    Backend { subject: ErrorSubject, verb: ErrorVerb, source: sled::Error },
    /// What was read does not have the form that this store writes.
    Malformed { subject: ErrorSubject },
}

impl StorageError {
    /// Whether the error is a failure of the tree on disk.
    pub open spec fn is_backend(&self, subject: ErrorSubject, verb: ErrorVerb) -> bool {
        self matches StorageError::Backend { subject: s, verb: v, .. } && s == subject && v == verb
    }

    /// Whether the error reports a record of the wrong form.
    pub open spec fn is_malformed(&self, subject: ErrorSubject) -> bool {
        self matches StorageError::Malformed { subject: s } && s == subject
    }
}

} // verus!

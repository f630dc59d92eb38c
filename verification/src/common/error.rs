//! The ways an operation of the wallet can fail.

use vstd::prelude::*;

verus! {

/// Why an operation failed.
#[derive(Debug)]
pub enum Error {
    /// The file named is already there, and is not overwritten.
    FileAlreadyExists(String),
    /// The file named could not be read or understood; the second text says why.
    FileNotFoundOrCorrupt(String, String),
    /// The data directory starts with a tilde and no home directory is known.
    PathExpansion,
    /// The kind of file asked for lives under a name, and none was given.
    MissingName,
    /// A stored object lacks the field named.
    MissingField(String),
    /// The signing key is none of the wallet's keys.
    UnrelatedKey,
    /// The transaction already carries a signature of this key.
    AlreadySigned,
    /// The parts of a partially signed transaction contradict each other.
    PsbtInconsistent,
    /// Partially signed transactions to be merged spend or pay differently.
    PsbtMismatch,
    /// Too few dice throws for the entropy a key needs.
    InsufficientEntropy,
    /// The node refused or failed; the text says how.
    NodeRpc(String),
    /// A text could not be understood; the text says which.
    Parse(String),
}

} // verus!

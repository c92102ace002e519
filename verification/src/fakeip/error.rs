//! What can go wrong with a journal.
use vstd::prelude::*;

verus! {

/// Errors of the directory and its journal.
#[derive(Clone, Copy, Debug, PartialEq, Eq, Structural)]
pub enum DirectoryError {
    /// The journal could not be written, and is as it was before.
    Io,
    /// The journal is locked by another writer.
    Locked,
    /// The journal header is invalid.
    BadHeader,
    /// A journal record is corrupt.
    CorruptRecord {
        /// Which record it is.
        index: u64,
    },
    /// A journal record conflicts with an earlier mapping.
    ConflictingMapping {
        /// Which record it is.
        index: u64,
    },
    /// The pool is exhausted.
    Exhausted,
    /// The reserved address is outside the pool.
    AddressOutsidePool(u32),
    /// The reserved address is a network or broadcast address.
    UnusableEndpoint(u32),
    /// The journal permissions allow group or other access.
    InsecurePermissions(u32),
    /// The journal is not a regular file.
    NotRegularFile,
    /// The journal owner is neither root nor the daemon user.
    WrongOwner(u32),
    /// The journal has more than one name.
    MultipleLinks(u64),
    /// The journal path has no parent directory.
    MissingParent,
    /// The journal could be neither written nor put back; serving must stop.
    RollbackFailed,
}

}

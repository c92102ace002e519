//! What is asked of the journal's file.
use crate::fakeip::error::DirectoryError;
use crate::fakeip::record;
use crate::storage;
use vstd::prelude::*;

verus! {

/// How much of a journal is complete records.
#[derive(Clone, Copy, Debug, PartialEq, Eq, Structural)]
pub struct JournalExtent {
    /// How many complete records there are.
    pub records: u64,
    /// The length of the header and the complete records.
    pub length: u64,
    /// Whether a part of a record stands behind them, which has to be cut off.
    pub torn: bool,
}

/// Measures a journal. One that is shorter than its header is none.
pub fn journal_extent(length: u64) -> (result: Result<JournalExtent, DirectoryError>)
    ensures
        if length < record::HEADER_LEN {
            result == Err::<JournalExtent, DirectoryError>(DirectoryError::BadHeader)
        } else {
            &&& result matches Ok(extent)
            &&& extent.records == (length - record::HEADER_LEN) / (record::RECORD_LEN as int)
            &&& extent.length == record::HEADER_LEN + extent.records * record::RECORD_LEN
            &&& extent.length <= length < extent.length + record::RECORD_LEN
            &&& extent.torn == (extent.length != length)
        },
{
    if length < record::HEADER_LEN as u64 {
        return Err(DirectoryError::BadHeader);
    }
    let payload: u64 = length - record::HEADER_LEN as u64;
    let records: u64 = payload / record::RECORD_LEN as u64;
    let complete: u64 = records * record::RECORD_LEN as u64;
    Ok(JournalExtent { records, length: record::HEADER_LEN as u64 + complete, torn: complete != payload })
}

/// Checks the header of a journal.
pub fn check_header(header: &[u8]) -> (result: Result<(), DirectoryError>)
    ensures
        result == (if header@ == record::header_bytes() {
            Ok::<(), DirectoryError>(())
        } else {
            Err(DirectoryError::BadHeader)
        }),
{
    if storage::equal(header, record::header().as_slice()) {
        Ok(())
    } else {
        Err(DirectoryError::BadHeader)
    }
}

/// Why the file of a journal is refused, if it is.
pub open spec fn journal_refusal(regular: bool, owner: u32, current: u32, links: u64, mode: u32) -> Option<
    DirectoryError,
> {
    if !regular {
        Some(DirectoryError::NotRegularFile)
    } else if owner != 0 && owner != current {
        Some(DirectoryError::WrongOwner(owner))
    } else if links != 1 {
        Some(DirectoryError::MultipleLinks(links))
    } else if mode & 0o077 != 0 {
        Some(DirectoryError::InsecurePermissions(mode & 0o777))
    } else {
        None
    }
}

/// Checks the file of a journal: a regular file of one name, which belongs to root or to
/// the current user, and which nobody else has a right to.
pub fn verify_permissions(regular: bool, owner: u32, current: u32, links: u64, mode: u32) -> (result: Result<
    (),
    DirectoryError,
>)
    ensures
        result == (match journal_refusal(regular, owner, current, links, mode) {
            Some(error) => Err::<(), DirectoryError>(error),
            None => Ok(()),
        }),
{
    if !regular {
        return Err(DirectoryError::NotRegularFile);
    }
    if owner != 0 && owner != current {
        return Err(DirectoryError::WrongOwner(owner));
    }
    if links != 1 {
        return Err(DirectoryError::MultipleLinks(links));
    }
    if mode & 0o077 != 0 {
        return Err(DirectoryError::InsecurePermissions(mode & 0o777));
    }
    Ok(())
}

}

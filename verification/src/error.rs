//! Error taxonomy of the library.

use vstd::prelude::*;

verus! {

/// Everything the link engine or the record store can report to a caller.
#[derive(Debug, Clone, Copy, PartialEq, Eq, Structural)]
pub enum LinkError {
    /// The request carried an empty source list.
    NoSourceSelected,
    /// A base name (final path component) could not be derived from a path.
    InvalidPath,
    /// The store could not be opened or an I/O operation on it failed.
    StorageUnavailable,
    /// A stored record is missing an expected field or cannot be decoded.
    RecordCorrupt,
}

impl LinkError {
    /// Human-readable message, used by the adapter layer in place of `Display`.
    pub fn message(&self) -> (r: &'static str)
        ensures
            r@ == self.spec_message(),
    {
        match self {
            LinkError::NoSourceSelected => "no source selected",
            LinkError::InvalidPath => "invalid path: no final component",
            LinkError::StorageUnavailable => "storage unavailable",
            LinkError::RecordCorrupt => "stored record is corrupt",
        }
    }

    pub open spec fn spec_message(&self) -> Seq<char> {
        match self {
            LinkError::NoSourceSelected => "no source selected"@,
            LinkError::InvalidPath => "invalid path: no final component"@,
            LinkError::StorageUnavailable => "storage unavailable"@,
            LinkError::RecordCorrupt => "stored record is corrupt"@,
        }
    }
}

} // verus!

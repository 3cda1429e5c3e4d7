//! The failure taxonomy surfaced at the engine's boundary.

use vstd::prelude::*;

verus! {

/// The class of an I/O failure, kept as plain data so that callers can tell
/// a missing file (worth offering "create new") from any other failure.
#[derive(Debug, Clone, Copy, PartialEq, Eq, Structural)]
pub enum IoKind {
    NotFound,
    PermissionDenied,
    Other,
}

/// Everything that can go wrong in and around the engine.
#[derive(Debug, Clone, Copy, PartialEq, Eq, Structural)]
pub enum Error {
    /// A storage-layer failure, propagated unchanged from the caller's I/O.
    Io(IoKind),
    /// The bytes read for a document were not valid UTF-8 text.
    MalformedEncoding,
    /// A save was attempted although no file name was ever set.
    NoFileName,
    /// A coordinate lies outside the buffer's bounds.
    OutOfRange,
    /// A mutation was attempted on a read-only document.
    ReadOnlyFile,
}

} // verus!

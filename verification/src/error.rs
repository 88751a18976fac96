//! The errors that the store reports.

use vstd::prelude::*;

verus! {

/// Why an operation of the store failed.
#[derive(Clone, Copy, Debug, PartialEq, Eq, Structural)]
pub enum Error {
    /// The text is not the canonical form of a stream identifier.
    MalformedId,
    /// No stream with this identifier is recorded.
    NotFound,
    /// A stream with this identifier is already recorded.
    AlreadyExists,
    /// Another writer or remover holds the stream.
    Busy,
    /// The stream belongs to another peer and cannot be signed here.
    NotLocal,
    /// The requested range reaches past the end of the stream.
    RangeOutOfBounds,
    /// Bytes do not match the hash tree, the head or the record layout.
    IntegrityError,
    /// The peer bytes are not a point of the curve.
    InvalidKey,
    /// The signature does not verify for the head under the stream's peer.
    SignatureMismatch,
    /// The file system failed. Reported by whoever reads and writes the
    /// files; nothing in this library does.
    IoError,
    /// The index failed. Reported by whoever reads and writes the index.
    KvError,
}

} // verus!

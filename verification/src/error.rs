use vstd::prelude::*;

verus! {

/// The ways an operation on the store can fail.
#[derive(Clone, Copy, Debug, PartialEq, Eq, Structural)]
pub enum StorageError {
    /// A forward lookup matched no row.
    NotFound,
    /// A key or value could not be turned into a storage payload.
    EncodeFailed,
    /// A stored payload could not be reconstructed into the expected type.
    DecodeFailed,
    /// The backing file could not be opened, read or written.
    Unavailable,
}

} // verus!

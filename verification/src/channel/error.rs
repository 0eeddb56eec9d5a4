//! What can go wrong in the segment store and in the combinator.
use vstd::prelude::*;

verus! {

/// Coarse classes of a storage failure.
///
/// The engine only ever asks whether a file was missing; every other cause is
/// fatal and treated alike.
#[derive(Debug, Clone, Copy, PartialEq, Eq, Structural)]
pub enum StorageErrorKind {
    /// The file does not exist.
    NotFound,
    /// Any other failure of open, read, write, metadata, permission or delete.
    Other,
}

/// A failure reported by one of the collaborators of the segment store.
///
/// The engine never makes such a value itself and never reads the message: it
/// hands the value on to its caller.
#[derive(Debug, PartialEq, Eq)]
pub enum Error {
    /// An item could not be encoded or decoded.
    Codec { message: String },
    /// A file operation failed.
    Storage { kind: StorageErrorKind, message: String },
    /// The file-change notification subsystem failed.
    Notification { message: String },
}

impl Error {
    /// Whether this is a storage failure caused by a missing file.
    pub open spec fn spec_is_not_found(&self) -> bool {
        self matches Error::Storage { kind, .. } && kind == StorageErrorKind::NotFound
    }

    /// Whether this is a storage failure caused by a missing file.
    #[verifier::when_used_as_spec(spec_is_not_found)]
    pub fn is_not_found(&self) -> (missing: bool)
        ensures
            missing == self.spec_is_not_found(),
    {
        match self {
            Error::Storage { kind: StorageErrorKind::NotFound, .. } => true,
            _ => false,
        }
    }
}

/// A failure of the spillover combinator.
#[derive(Debug, PartialEq, Eq)]
pub enum SendAllFsErr<E> {
    /// The segment store failed.
    StoreError { source: Error },
    /// The consumer or the upstream source failed; the value is theirs, untouched.
    Custom { inner: E },
}

/// Wraps a failure of the consumer or of the upstream source.
pub fn from_custom_err<E>(oth: E) -> (err: SendAllFsErr<E>)
    ensures
        err == (SendAllFsErr::Custom { inner: oth }),
{
    SendAllFsErr::Custom { inner: oth }
}

/// Wraps a failure of the segment store.
pub fn from_store_err<E>(source: Error) -> (err: SendAllFsErr<E>)
    ensures
        err == (SendAllFsErr::<E>::StoreError { source }),
{
    SendAllFsErr::StoreError { source }
}

} // verus!

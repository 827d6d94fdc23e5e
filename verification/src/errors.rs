//! The error taxonomy every client operation reports through.

use vstd::prelude::*;

verus! {

/// What kind of entity a client-side precondition check failed to find.
#[derive(Debug, PartialEq, Eq)]
pub enum NotFoundKind {
    Codebase,
    File,
}

/// Failure taxonomy of the repository client.
///
/// `TransportFailure` covers connection-level faults and is produced only by
/// the unverified transport edge; `DecodeFailure` a malformed listing,
/// descriptor, or version field; `RemoteStatusFailure` a non-2xx answer from
/// an otherwise reachable service; `NotFound` a client-side precondition
/// check against a listing or descriptor that failed before the effecting
/// call was made.
#[derive(Debug, PartialEq, Eq)]
pub enum ApiError {
    TransportFailure,
    DecodeFailure,
    RemoteStatusFailure { status: u16, body: Vec<u8> },
    NotFound { kind: NotFoundKind, name: String },
}

impl ApiError {
    /// True exactly on the `NotFound` variant, whatever it names.
    pub fn is_not_found(&self) -> (r: bool)
        ensures
            r == (self is NotFound),
    {
        match self {
            ApiError::NotFound { .. } => true,
            _ => false,
        }
    }
}

} // verus!

//! The error kinds of the two request builders.

use vstd::prelude::*;

verus! {

/// What can go wrong while presigning or uploading.
#[derive(Debug)]
pub enum StorageError {
    /// The endpoint string does not parse as a URL.
    InvalidEndpoint,
    /// The transport failed before any response arrived; the message
    /// describes the connection failure.
    TransportError(Vec<u8>),
    /// The remote answered with a non-success status; the response body
    /// is attached.
    RemoteRejected { status: u16, body: Vec<u8> },
    /// An internal invariant was violated, such as an empty region.
    SigningError,
}

} // verus!

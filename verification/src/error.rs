//! The provider's error vocabulary.
//!
//! Every failure that crosses out of this library is one of these typed
//! values; token-native status codes are wrapped, never leaked bare.

use vstd::prelude::*;

verus! {

/// A typed failure of a key lifecycle operation.
#[derive(Clone, Copy, Debug, PartialEq, Eq, Structural)]
pub enum Error {
    /// The requested key type or operation is not supported by this provider.
    NotSupported,
    /// A record already exists for the requested key triple.
    AlreadyExists,
    /// No record exists for the key triple, or no matching object is on the token.
    NotFound,
    /// The supplied key material or attributes are malformed or inconsistent.
    InvalidArgument,
    /// The store returned a record whose identifier is not usable.
    CorruptRecord,
    /// The durable store itself malfunctioned.
    StoreError,
    /// Repeated identifier allocation attempts all collided with live identifiers.
    AllocationExhausted,
    /// A token command failed; the native status code is carried along.
    TokenError(u64),
    /// Re-encoding a token-returned value failed; reported to the caller as a
    /// communication failure because it indicates an unexpected token value.
    CommunicationFailure,
}

} // verus!

//! The ways a decode (or an address encode) can fail.  Every failure is
//! synchronous and surfaces to the caller; nothing is retried inside the
//! codec.

use vstd::prelude::*;

verus! {

/// The mandatory attribute that a binding response turned out to lack.
#[derive(Clone, Copy, Debug, PartialEq, Eq, Structural)]
pub enum MandatoryField {
    MappedAddress,
    SourceAddress,
    ChangedAddress,
}

/// A decode failure, or the one possible encode failure
/// (`UnsupportedAddressFamily` on a non-IPv4 endpoint).
#[derive(Clone, Copy, Debug, PartialEq, Eq, Structural)]
pub enum DecodeError {
    /// The reserved first half of the transaction identifier was not zero.
    MalformedTransactionId,
    /// The message type code is not one this protocol defines.
    UnknownMessageType,
    /// The message type code is defined but deliberately not decoded here.
    UnsupportedMessageType,
    /// An attribute whose type code is at or below the mandatory boundary
    /// was present but is not understood.
    UnknownMandatoryAttribute,
    /// A change-request flag word held none of the three defined patterns.
    InvalidChangeRequest,
    /// An address record carried a family tag other than IPv4, or a non-IPv4
    /// endpoint was handed to the encoder.
    UnsupportedAddressFamily,
    /// A binding response ended without one of its three required addresses.
    MissingMandatoryAttribute(MandatoryField),
    /// The trailing message-integrity hash did not match the message bytes.
    IntegrityViolation,
    /// The buffer ended in the middle of a field.
    Truncated,
}

} // verus!

//! Why a datagram could not be decoded.

use vstd::prelude::*;

verus! {

/// The ways in which decoding a datagram fails.
#[derive(Debug, Clone, Copy, PartialEq, Eq, Structural)]
pub enum DecodeError {
    /// The buffer is shorter than the fixed portion of the message.
    ShortBuffer,
    /// The first four bytes are neither `1TEG` nor `2TEG`.
    BadSignature,
    /// The header is sound but names a message this client does not handle.
    UnknownCommand,
    /// The lengths a media frame declares do not fit the datagram.
    LengthMismatch,
}

} // verus!

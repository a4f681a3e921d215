use vstd::prelude::*;

verus! {

/// The failure taxonomy of the codec and of the controller's collaborator
/// calls.  Codec errors are local to one connection; `BackendUnreachable`
/// covers every way a status query can fail (connect, timeout, malformed
/// response body), and `CloudApiFailure` a failed instance start or stop.
#[derive(Clone, Copy, Debug, PartialEq, Eq, Structural)]
pub enum Error {
    /// A variable-length integer ran past five bytes or past 32 bits.
    MalformedVarInt,
    /// The input ended in the middle of a field.
    UnexpectedEof,
    /// A frame announced more bytes than the input still holds.
    Truncated,
    /// A packet carried an id other than the expected one.
    UnexpectedPacketId,
    /// A handshake asked for a next state the router does not know.
    UnsupportedNextState,
    /// A length-prefixed text field was not valid UTF-8.
    InvalidUtf8,
    /// A status query against the backend failed.
    BackendUnreachable,
    /// The cloud start or stop call failed.
    CloudApiFailure,
}

} // verus!

//! What can go wrong on one connection.

use vstd::prelude::*;

verus! {

/// A failure that ends one connection. None of them is fatal to the process,
/// and an unsupported version is not among them: that is an ordinary response.
#[derive(Clone, Copy, Debug, PartialEq, Eq, Structural)]
pub enum ProtocolError {
    /// The peer closed the stream, or the transport failed, during a read or a write.
    ConnectionClosed,
    /// The length prefix of a frame is negative or larger than any frame may be.
    MalformedFrame,
    /// The message is shorter than the header it should hold.
    TruncatedHeader,
    /// The client identifier is not valid UTF-8.
    MalformedClientId,
}

} // verus!

//! The error taxonomy of the client core.
//!
//! Every operation returns a typed result; no failure is silently swallowed.

use vstd::prelude::*;

verus! {

/// What can go wrong in the connection/channel core.
#[derive(Clone, Copy, Debug, PartialEq, Eq, Structural)]
pub enum AmqError {
    /// An unexpected method or frame arrived for the current handshake or
    /// channel state. Recoverable at the call site: it fails that call, not
    /// necessarily the whole connection.
    ProtocolViolation,
    /// An I/O failure (or end of stream) on send or receive. Fatal to the
    /// in-flight call; inside the dispatch loop, fatal to the connection.
    TransportError,
    /// A blocking wait found no delivered reply before its deadline.
    /// Recoverable: the caller may retry the wait or close the channel.
    Timeout,
    /// The dispatch loop has terminated; every pending and future blocking
    /// call on any channel of this connection fails with this.
    ConnectionLost,
    /// The id allocator has no ids available up to the negotiated maximum.
    ChannelLimitExceeded,
    /// An operation was attempted on a channel already in the Closed state.
    ChannelClosed,
}

} // verus!

//! The ways a connection can fail.

use vstd::prelude::*;

verus! {

/// A handshake message that could not be taken as sent.
#[derive(Debug, Clone, Copy, PartialEq, Eq, Structural)]
pub enum ProtocolError {
    /// The message is longer than the handshake budget.
    Oversized,
    /// The bytes do not decode as the expected message.
    Malformed,
    /// No message arrived within the time allowed.
    TimedOut,
}

/// The lookup failed: no live session is filed under the token.
#[derive(Debug, Clone, Copy, PartialEq, Eq, Structural)]
pub struct NotFound;

/// Why a control connection was closed.
#[derive(Debug, Clone, Copy, PartialEq, Eq, Structural)]
pub enum CloseCause {
    /// The registration message could not be taken as sent.
    Protocol(ProtocolError),
    /// The credentials name no configured client.
    Auth,
    /// The forwarding listener could not be bound.
    Bind,
    /// Every token drawn for the session had been issued before.
    TokenExhausted,
    /// A heartbeat arrived for a session that is no longer registered.
    SessionLost,
    /// No heartbeat arrived within the time allowed.
    HeartbeatTimeout,
    /// The peer closed the connection, or it failed.
    Disconnected,
    /// The connection had been closed before.
    Finished,
}

/// Why a tunnel claim was turned away.
#[derive(Debug, Clone, Copy, PartialEq, Eq, Structural)]
pub enum ClaimError {
    /// The claim could not be read as a message at all.
    Protocol(ProtocolError),
    /// The claimed text is not a token.
    MalformedToken,
    /// No live session is filed under the token.
    UnknownToken,
    /// The token's session is bound to another forwarding port.
    WrongPort,
}

} // verus!

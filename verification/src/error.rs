//! Error kinds of the peer-session engine.

use vstd::prelude::*;

verus! {

/// Everything that can go wrong between connecting to a peer and emitting a
/// verified piece. `IntegrityFailure` is recovered locally (the piece is
/// requeued); every other kind terminates the owning session.
#[derive(Debug, Clone, Copy, PartialEq, Eq, Structural)]
pub enum SessionError {
    /// The TCP connection could not be opened.
    ConnectError,
    /// A handshake frame did not start with the BitTorrent protocol header.
    HandshakeFormat,
    /// The peer answered the handshake with a different info hash.
    HashMismatch,
    /// An unknown message id, an inconsistent frame, or an unexpected message.
    ProtocolViolation,
    /// A `Piece` message carried an index other than the piece being fetched.
    PieceMismatch,
    /// A `Piece` message carried data outside the piece buffer.
    PieceOverflow,
    /// The assembled buffer failed its SHA-1 check.
    IntegrityFailure,
    /// The peer sent nothing for the whole receive window.
    Timeout,
    /// The work queue or the result sink was closed.
    ChannelClosed,
}

impl SessionError {
    /// A short human-readable name for the error kind.
    pub fn describe(&self) -> (r: &'static str)
        ensures
            r@.len() > 0,
    {
        let s = match self {
            SessionError::ConnectError => "could not connect to peer",
            SessionError::HandshakeFormat => "malformed handshake frame",
            SessionError::HashMismatch => "handshake info hash mismatch",
            SessionError::ProtocolViolation => "protocol violation",
            SessionError::PieceMismatch => "piece index mismatch",
            SessionError::PieceOverflow => "piece data out of bounds",
            SessionError::IntegrityFailure => "piece failed integrity check",
            SessionError::Timeout => "timed out while receiving message",
            SessionError::ChannelClosed => "work channel closed",
        };
        proof {
            reveal_strlit("could not connect to peer");
            reveal_strlit("malformed handshake frame");
            reveal_strlit("handshake info hash mismatch");
            reveal_strlit("protocol violation");
            reveal_strlit("piece index mismatch");
            reveal_strlit("piece data out of bounds");
            reveal_strlit("piece failed integrity check");
            reveal_strlit("timed out while receiving message");
            reveal_strlit("work channel closed");
        }
        s
    }
}

} // verus!

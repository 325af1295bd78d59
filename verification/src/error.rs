//! The ways a relayed connection can fail.

use vstd::prelude::*;

verus! {

/// A violation of the address wire format.
#[derive(Clone, Copy, Debug, PartialEq, Eq, Structural)]
pub enum ProtocolError {
    /// The tag byte of an address frame is none of the three known tags.
    UnknownAddressType,
    /// The bytes of a domain name are not UTF-8.
    InvalidHostname,
    /// A domain name is longer than the one length byte of the frame can say.
    HostnameTooLong,
}

/// Why a connection was aborted.
#[derive(Clone, Copy, Debug, PartialEq, Eq, Structural)]
pub enum RelayError {
    /// The peer sent a malformed address frame.
    Protocol(ProtocolError),
    /// The peer closed the stream in the middle of an IV or an address frame.
    UnexpectedEof,
    /// The destination took no bytes of a non-empty write.
    WriteZero,
    /// The client did not name a destination in time.
    HandshakeTimeout,
    /// The connection's deadline passed before both directions were done.
    RelayTimeout,
}

impl RelayError {
    /// The text of [`message`](Self::message).
    pub open spec fn message_spec(self) -> Seq<char> {
        match self {
            RelayError::Protocol(ProtocolError::UnknownAddressType) => "unknown address type"@,
            RelayError::Protocol(ProtocolError::InvalidHostname) => "hostname include invalid utf8"@,
            RelayError::Protocol(ProtocolError::HostnameTooLong) => "hostname longer than 255 bytes"@,
            RelayError::UnexpectedEof => "early eof"@,
            RelayError::WriteZero => "write zero byte into writer"@,
            RelayError::HandshakeTimeout => "handshake timed out"@,
            RelayError::RelayTimeout => "relay timed out"@,
        }
    }

    /// A short description of the error, for a log line.
    pub fn message(&self) -> (s: &'static str)
        ensures
            s@ == self.message_spec(),
    {
        match self {
            RelayError::Protocol(ProtocolError::UnknownAddressType) => "unknown address type",
            RelayError::Protocol(ProtocolError::InvalidHostname) => "hostname include invalid utf8",
            RelayError::Protocol(ProtocolError::HostnameTooLong) => "hostname longer than 255 bytes",
            RelayError::UnexpectedEof => "early eof",
            RelayError::WriteZero => "write zero byte into writer",
            RelayError::HandshakeTimeout => "handshake timed out",
            RelayError::RelayTimeout => "relay timed out",
        }
    }
}

} // verus!

//! The error taxonomy of the ping client and the echo responder.

use vstd::prelude::*;

verus! {

/// The failures a ping exchange or an echo responder can report.
#[derive(Debug, Clone, Copy, PartialEq, Eq, Structural)]
pub enum PingError {
    /// The destination did not parse as an IPv4 address.
    InvalidAddress,
    /// The OS refused to create the raw socket for lack of privilege.
    PermissionDenied,
    /// The OS failed to create the raw socket for another reason.
    SocketCreationFailed,
    /// The wildcard bind on the ICMP protocol failed.
    BindFailed,
    /// The OS failed to transmit the datagram.
    SendFailed,
    /// No reply arrived within the configured window.
    Timeout,
    /// Fewer than 8 bytes of ICMP data, or a frame shorter than the IP
    /// header length its first byte claims.
    MalformedPacket,
}

} // verus!

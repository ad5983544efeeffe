//! Ping session state and the per-exchange bookkeeping of the client: the
//! request it builds, how its sequence counter advances, and how a received
//! datagram is interpreted. The raw-socket sends and receives around these
//! live outside the library.

use vstd::prelude::*;
use crate::error::PingError;
use crate::frame::decode_datagram;
use crate::frame::frame_message;
use crate::frame::frame_ok;
use crate::packet::IcmpPacket;
use crate::packet::echo_request_view;

verus! {

/// Ping session state: the identifier fixed at session creation and the
/// sequence counter advanced after every request built.
pub struct Client {
    pub identifier: u16,
    pub sequence: u16,
}

impl Client {
    /// Open a session under the given identifier (conventionally the sending
    /// process's identity, passed in explicitly so replies can be told apart
    /// from unrelated traffic); the sequence counter starts at 0.
    pub fn new(identifier: u16) -> (r: Self)
        ensures
            r.identifier == identifier,
            r.sequence == 0u16,
    {
        Self { identifier, sequence: 0 }
    }

    /// Build this session's next Echo Request, carrying the current
    /// identifier and sequence, and advance the sequence counter by one,
    /// wrapping at the 16-bit boundary.
    pub fn next_request(&mut self) -> (r: IcmpPacket)
        ensures
            r@ == echo_request_view(old(self).identifier, old(self).sequence),
            final(self).identifier == old(self).identifier,
            final(self).sequence == (if old(self).sequence == 0xFFFFu16 {
                0u16
            } else {
                (old(self).sequence + 1) as u16
            }),
    {
        let packet = IcmpPacket::new_echo_req(self.identifier, self.sequence);
        self.sequence = self.sequence.wrapping_add(1);
        packet
    }

    /// Interpret a raw datagram received in answer to a request: strip the
    /// IP framing and decode. Anything that does not parse is a
    /// `MalformedPacket` error; no correlation against the request's
    /// identifier or sequence is performed.
    pub fn parse_reply(buf: &[u8]) -> (r: Result<IcmpPacket, PingError>)
        ensures
            frame_ok(buf@) ==> (r matches Ok(p) && p@ == frame_message(buf@)),
            !frame_ok(buf@) ==> (r matches Err(e) && e == PingError::MalformedPacket),
    {
        match decode_datagram(buf) {
            Some(p) => Ok(p),
            None => Err(PingError::MalformedPacket),
        }
    }
}

} // verus!

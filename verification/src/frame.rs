//! Raw-socket framing: a received datagram leads with the IP header, whose
//! length the low nibble of its first byte gives in 32-bit words; the ICMP
//! message is everything after it.

use vstd::prelude::*;
use crate::packet::IcmpPacket;
use crate::packet::PacketView;
use crate::packet::spec_decode;

verus! {

/// The IP header length claimed by the first byte of a received datagram:
/// the low nibble counts 32-bit words.
pub open spec fn spec_ihl(b0: u8) -> int {
    ((b0 & 0x0F) as int) * 4
}

/// A received raw datagram is well-framed when it is long enough for the IP
/// header its first byte claims plus an 8-byte ICMP header.
pub open spec fn frame_ok(b: Seq<u8>) -> bool {
    b.len() > 0 && spec_ihl(b[0]) + 8 <= b.len()
}

/// The ICMP message inside a well-framed datagram: everything after the IP
/// header, decoded.
pub open spec fn frame_message(b: Seq<u8>) -> PacketView {
    spec_decode(b.skip(spec_ihl(b[0])))
}

/// Strip the leading IP header from a received raw datagram and decode the
/// ICMP message after it; anything too short for either header fails.
pub fn decode_datagram(buf: &[u8]) -> (r: Option<IcmpPacket>)
    ensures
        r is Some <==> frame_ok(buf@),
        r matches Some(p) ==> p@ == frame_message(buf@),
{
    if buf.len() == 0 {
        return None;
    }
    let b0 = buf[0];
    proof {
        assert((b0 & 0x0F) < 16) by (bit_vector);
    }
    let ihl: usize = ((b0 & 0x0F) as usize) * 4;
    if buf.len() < ihl + 8 {
        return None;
    }
    let inner: &[u8] = &buf[ihl..buf.len()];
    proof {
        assert(buf@.subrange(ihl as int, buf@.len() as int) =~= buf@.skip(spec_ihl(buf@[0])));
    }
    IcmpPacket::from_bytes(inner)
}

} // verus!

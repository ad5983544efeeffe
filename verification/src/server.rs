//! The echo responder's per-datagram decision: decode what was received and,
//! for an Echo Request, produce the serialized reply to send back to the
//! source. The blocking receive loop and the sends around this decision live
//! outside the library.

use vstd::prelude::*;
use crate::frame::decode_datagram;
use crate::frame::frame_message;
use crate::frame::frame_ok;
use crate::packet::reply_view;
use crate::packet::spec_encode;

verus! {

/// The echo responder: a single Listening state whose one transition per
/// received datagram is `handle_datagram`, a self-loop.
pub struct Server {}

impl Server {
    /// Decide one Listening-state transition. A well-framed Echo Request
    /// yields the serialized Echo Reply to send back; a malformed datagram
    /// or any other message yields nothing and the loop goes on.
    pub fn handle_datagram(&self, buf: &[u8]) -> (r: Option<Vec<u8>>)
        requires
            buf@.len() <= 65535,
        ensures
            r is Some <==> (frame_ok(buf@) && frame_message(buf@).type_ == 8 && frame_message(
                buf@,
            ).code == 0),
            r matches Some(v) ==> v@ == spec_encode(reply_view(frame_message(buf@))),
    {
        match decode_datagram(buf) {
            Some(p) => {
                if p.is_echo_req() {
                    let mut reply = p.make_echo_resp();
                    Some(reply.bytes())
                } else {
                    None
                }
            },
            None => None,
        }
    }
}

} // verus!

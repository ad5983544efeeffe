//! Verified ICMP Echo (ping) protocol logic.
//!
//! The packet codec, the IP-frame stripping, and the client/server decision
//! logic are verified here; raw-socket I/O lives outside the library.

pub mod client;
pub mod error;
pub mod frame;
pub mod packet;
pub mod server;

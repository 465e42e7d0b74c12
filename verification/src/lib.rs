//! Serial-frame gateway protocol processor.
//!
//! Turns a raw, unreliable byte stream into discrete, integrity-checked
//! application messages: self-delimiting byte-stuffed framing, a CRC-32
//! checksum, and a structured header format, over a streaming transport
//! that can deliver partial or corrupted frames at any byte boundary,
//! using only fixed-capacity buffers.

pub mod assembler;
pub mod cobs;
pub mod crc;
pub mod dispatch;
pub mod frame;
pub mod gateway;
pub mod inbound;
pub mod led;
pub mod legacy;
pub mod mac;
pub mod ota;
pub mod outbound;
pub mod relay;
pub mod wifi;

use vstd::prelude::*;

verus! {

/// Largest payload the gateway will forward to the messaging egress.
pub const MQTT_PACKET_LEN: usize = 1024;

/// Largest packet accepted for the raw outbound (socket write) path.
pub const TCP_PACKET_LEN: usize = 64;

} // verus!

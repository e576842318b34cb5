//! Constants of the ASK framing protocol.
//!
//! Buffer sizes, header layout, the preamble length and the start symbol all
//! follow the RadioHead `RH_ASK` framing conventions, so that a driver built
//! on this crate interoperates with other `RH_ASK` peers.

use vstd::prelude::*;

verus! {

/// Bitmask for protocol-level flags reserved for future use.
pub const ASK_FLAGS_RESERVED: i16 = 0xf0;

/// Bitmask for application-specific flags.
pub const ASK_FLAGS_APPLICATION_SPECIFIC: i16 = 0x0f;

/// Constant for a "no flags" state (all bits zero).
pub const ASK_FLAGS_NONE: i16 = 0;

/// Length (in bytes) of the fixed packet header: `to`, `from`, `id`, `flags`.
pub const ASK_HEADER_LEN: u8 = 4;

/// Maximum total length (in unencoded bytes) of a packet: length byte,
/// headers, user message and the two FCS bytes.
pub const ASK_MAX_PAYLOAD_LEN: u8 = 67;

/// Length (in bytes) of the transmitted preamble, start symbol included.
pub const ASK_PREAMBLE_LEN: u8 = 8;

/// Maximum size (in bytes) of user message content.
pub const ASK_MAX_MESSAGE_LEN: u8 = ASK_MAX_PAYLOAD_LEN - ASK_HEADER_LEN - 3;

/// See [`ASK_MAX_MESSAGE_LEN`].
pub const ASK_MAX_MESSAGE_LEN_USIZE: usize = ASK_MAX_MESSAGE_LEN as usize;

/// Maximum size (in 6-bit symbols) of the full transmit buffer: two symbols
/// per packet byte plus the preamble prefix.
pub const ASK_MAX_BUF_LEN: u8 = ASK_MAX_PAYLOAD_LEN * 2 + ASK_PREAMBLE_LEN;

/// See [`ASK_MAX_BUF_LEN`].
pub const ASK_MAX_BUF_LEN_USIZE: usize = ASK_MAX_BUF_LEN as usize;

/// The broadcast address: packets sent to it are delivered to every station.
pub const BROADCAST_ADDRESS: u8 = 0xff;

/// The 12-bit start symbol that marks the transition from preamble to data.
pub const ASK_START_SYMBOL: u16 = 0xb38;

} // verus!

//! A software ASK/OOK modem core for cheap 433 MHz RF transceiver modules.
//!
//! The crate implements the bit-level protocol of the RadioHead `RH_ASK`
//! convention: a 4b6b symbol codec, an incremental CRC-CCITT checksum, a
//! software phase-locked loop that recovers bits from a sampled input line,
//! a transmit state machine that emits one bit per bit period, and a driver
//! controller that owns both and exposes `send`/`availabile`/`receive`.
//!
//! The core is pure logic over plain values: the driver consumes one input
//! sample per `tick` and records the levels it wants on the TX and PTT lines
//! in fields of its own. Wiring those values to real GPIO pins, timers or
//! interrupts is left to a thin integration layer around this crate.

pub mod consts;
pub mod crc;
pub mod driver;
pub mod encoding;
pub mod pll;

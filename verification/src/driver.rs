//! The ASK/OOK modem driver: mode controller, transmit engine and packet
//! validation around the software PLL.
//!
//! The driver consumes one input sample per [`AskDriver::tick`] and records
//! the levels it wants on the TX and PTT lines in its [`AskDriver::tx_level`]
//! and [`AskDriver::ptt_level`] fields; an integration layer samples the
//! receiver pin before each tick and copies those fields to output pins
//! after it. Every observable effect of a tick is pinned down by the
//! transition function [`driver_tick_step`].

use crate::consts::ASK_HEADER_LEN;
use crate::consts::ASK_MAX_BUF_LEN;
use crate::consts::ASK_MAX_MESSAGE_LEN;
use crate::consts::ASK_PREAMBLE_LEN;
use crate::consts::BROADCAST_ADDRESS;
use crate::crc::crc_ccitt_update;
use crate::crc::crc_seq;
use crate::crc::crc_update_spec;
use crate::crc::lemma_crc_seq_push;
use crate::encoding::decode_buffer_ok;
use crate::encoding::decode_bytes_spec;
use crate::encoding::encode_4b6b;
use crate::encoding::encode_bytes_spec;
use crate::encoding::encode_nibble_spec;
use crate::encoding::hi_nib;
use crate::encoding::is_symbol;
use crate::encoding::lo_nib;
use crate::encoding::lemma_encode_bytes_push;
use crate::encoding::lemma_nibble_roundtrip;
use crate::encoding::symbol_for;
use crate::pll::initial_pll;
use crate::pll::pll_tick_step;
use crate::pll::pll_wf;
use crate::pll::wrap_inc;
use crate::pll::PllModel;
use crate::pll::SoftwarePLL;
use vstd::prelude::*;

verus! {

/// The operational mode of an [`AskDriver`].
#[derive(PartialEq, Eq, Clone, Copy, Debug, Structural)]
pub enum AskMode {
    /// Low-power mode: no RF activity. The core treats it like `Idle` and
    /// never enters it on its own.
    Sleep,
    /// Ready state: powered and initialized, neither sending nor receiving.
    Idle,
    /// Actively transmitting the queued message, one bit per bit period.
    Tx,
    /// Actively listening: every tick feeds the software PLL.
    Rx,
    /// Channel-activity detection, reserved: the core never enters it.
    Cad,
}

impl Default for AskMode {
    /// The resting mode of a fresh driver.
    fn default() -> (r: Self)
        ensures
            r == AskMode::Idle,
    {
        AskMode::Idle
    }
}

/// The mathematical state of an [`AskDriver`], with the transmit buffer as
/// a sequence and the PLL as its own model.
#[verifier::ext_equal]
pub ghost struct DriverModel {
    /// The current mode.
    pub mode: AskMode,
    /// The receiver PLL state.
    pub pll: PllModel,
    /// Ticks per transmitted bit period.
    pub ticks_per_bit: u8,
    /// Ticks elapsed in the current transmit bit period.
    pub tick_counter: u8,
    /// The on-air symbol buffer: preamble, then encoded packet.
    pub tx_buf: Seq<u8>,
    /// The station address packets must match to be delivered.
    pub this_address: u8,
    /// Whether address filtering is disabled.
    pub promiscuous: bool,
    /// Outgoing header: destination address.
    pub tx_header_to: u8,
    /// Outgoing header: source address.
    pub tx_header_from: u8,
    /// Outgoing header: packet id.
    pub tx_header_id: u8,
    /// Outgoing header: user flags.
    pub tx_header_flags: u8,
    /// Incoming header: destination address.
    pub rx_header_to: u8,
    /// Incoming header: source address.
    pub rx_header_from: u8,
    /// Incoming header: packet id.
    pub rx_header_id: u8,
    /// Incoming header: user flags.
    pub rx_header_flags: u8,
    /// Whether the PTT line is driven inverted.
    pub ptt_inverted: bool,
    /// Index of the symbol currently being transmitted.
    pub tx_index: u8,
    /// Bit position inside the current symbol.
    pub tx_bit: u8,
    /// Sample counter reserved by the transmit path.
    pub tx_sample: u8,
    /// Number of symbols queued for transmission.
    pub tx_buf_len: u8,
    /// Completed transmissions.
    pub tx_good: u16,
    /// Received packets dropped by validation.
    pub rx_bad: u16,
    /// Received packets accepted and delivered.
    pub rx_good: u16,
    /// Whether a validated packet is waiting to be consumed.
    pub rx_buf_valid: bool,
    /// The level the TX line is being driven to.
    pub tx_level: bool,
    /// The level the PTT line is being driven to.
    pub ptt_level: bool,
}

/// The fixed on-air preamble: six training symbols and the two bytes whose
/// twelve bits form the start symbol.
pub open spec fn preamble() -> Seq<u8> {
    seq![0x2au8, 0x2au8, 0x2au8, 0x2au8, 0x2au8, 0x2au8, 0x38u8, 0x2cu8]
}

/// The physical level of the PTT line for a logical on/off request.
pub open spec fn ptt_phys(ptt_inverted: bool, on: bool) -> bool {
    if ptt_inverted {
        !on
    } else {
        on
    }
}

/// Well-formedness of a driver state: a well-formed PLL with no unconsumed
/// frame, a credible tick cadence, a transmit buffer that starts with the
/// preamble and otherwise holds only table symbols, consistent transmit
/// bookkeeping while in `Tx`, and a packet reported waiting only when the
/// hunting PLL's buffer really holds one that passed the CRC check.
pub open spec fn driver_wf(d: DriverModel) -> bool {
    &&& pll_wf(d.pll)
    &&& !d.pll.full
    &&& 2 <= d.ticks_per_bit
    &&& d.tick_counter < d.ticks_per_bit
    &&& 8 <= d.tx_buf.len() <= ASK_MAX_BUF_LEN
    &&& d.tx_buf.subrange(0, 8) == preamble()
    &&& forall|i: int| 8 <= i < d.tx_buf.len() ==> is_symbol(#[trigger] d.tx_buf[i])
    &&& (d.mode == AskMode::Tx ==> d.tx_buf_len == d.tx_buf.len() && d.tx_index <= d.tx_buf_len
        && d.tx_bit < 6)
    &&& (d.rx_buf_valid ==> 7 <= d.pll.buf_len && !d.pll.active && crc_seq(d.pll.buf, 0xffff)
        == 0xf0b8)
}

/// Entering `Idle`: PTT released, TX line low.
pub open spec fn set_idle_step(d: DriverModel) -> DriverModel {
    if d.mode != AskMode::Idle {
        DriverModel {
            ptt_level: ptt_phys(d.ptt_inverted, false),
            tx_level: false,
            mode: AskMode::Idle,
            ..d
        }
    } else {
        d
    }
}

/// Entering `Rx`: PTT released, TX line low.
pub open spec fn set_rx_step(d: DriverModel) -> DriverModel {
    if d.mode != AskMode::Rx {
        DriverModel {
            ptt_level: ptt_phys(d.ptt_inverted, false),
            tx_level: false,
            mode: AskMode::Rx,
            ..d
        }
    } else {
        d
    }
}

/// Entering `Tx`: transmit position rewound, PTT asserted.
pub open spec fn set_tx_step(d: DriverModel) -> DriverModel {
    if d.mode != AskMode::Tx {
        DriverModel {
            tx_index: 0,
            tx_bit: 0,
            tx_sample: 0,
            ptt_level: ptt_phys(d.ptt_inverted, true),
            mode: AskMode::Tx,
            ..d
        }
    } else {
        d
    }
}

/// Validation of a completed receive buffer: the running CRC over every
/// buffered byte must end at the residue `0xF0B8`; on failure the packet
/// counts as bad. On success the four header bytes are recorded and the
/// packet is accepted exactly when the driver is promiscuous, addressed, or
/// the destination is the broadcast address.
pub open spec fn validate_step(d: DriverModel) -> DriverModel {
    if crc_seq(d.pll.buf, 0xffff) != 0xf0b8 {
        DriverModel { rx_bad: wrap_inc(d.rx_bad), rx_buf_valid: false, ..d }
    } else {
        let to = d.pll.buf[1];
        let d1 = DriverModel {
            rx_header_to: to,
            rx_header_from: d.pll.buf[2],
            rx_header_id: d.pll.buf[3],
            rx_header_flags: d.pll.buf[4],
            ..d
        };
        if d.promiscuous || to == d.this_address || to == BROADCAST_ADDRESS {
            DriverModel { rx_good: wrap_inc(d.rx_good), rx_buf_valid: true, ..d1 }
        } else {
            DriverModel { rx_buf_valid: false, ..d1 }
        }
    }
}

/// One advanced transmit bit: past the end of the buffer the finished
/// transmission is counted and the driver goes back to `Idle`; otherwise
/// the TX line is driven to the current bit of the current symbol,
/// LSB-first, and the position advances.
pub open spec fn transmit_bit_step(d: DriverModel) -> DriverModel {
    if d.tx_index >= d.tx_buf_len {
        set_idle_step(DriverModel { tx_good: wrap_inc(d.tx_good), ..d })
    } else {
        let bit = d.tx_buf[d.tx_index as int] & (1u8 << d.tx_bit) != 0;
        let tx_bit = (d.tx_bit + 1) as u8;
        let d1 = DriverModel { tx_bit, tx_level: bit, ..d };
        if tx_bit >= 6 {
            DriverModel { tx_bit: 0, tx_index: (d.tx_index + 1) as u8, ..d1 }
        } else {
            d1
        }
    }
}

/// One timing tick. In `Rx` the sample feeds the PLL; a frame the PLL
/// completes on this tick is validated at once and its `full` flag is
/// consumed, and a packet still waiting when the PLL locks onto a new frame
/// is dropped, since the new frame overwrites the buffer. In `Tx` the tick
/// counter advances, and each time it reaches `ticks_per_bit` one bit is
/// emitted. All other modes rest.
pub open spec fn driver_tick_step(d: DriverModel, rx: bool) -> DriverModel {
    if d.mode == AskMode::Rx {
        let pll = pll_tick_step(d.pll, rx);
        let rx_buf_valid = if !d.pll.active && pll.active {
            false
        } else {
            d.rx_buf_valid
        };
        let d1 = DriverModel { pll, rx_buf_valid, ..d };
        if pll.full {
            let d2 = validate_step(d1);
            DriverModel { pll: PllModel { full: false, ..d2.pll }, ..d2 }
        } else {
            d1
        }
    } else if d.mode == AskMode::Tx {
        let tick_counter = (d.tick_counter + 1) as u8;
        if tick_counter >= d.ticks_per_bit {
            transmit_bit_step(DriverModel { tick_counter: 0, ..d })
        } else {
            DriverModel { tick_counter, ..d }
        }
    } else {
        d
    }
}

/// The state after a call to `availabile`: in `Tx` nothing happens; in any
/// other mode the driver enters `Rx` and validates a waiting frame, if one
/// is pending, consuming the PLL's `full` flag.
pub open spec fn available_step(d: DriverModel) -> DriverModel {
    if d.mode == AskMode::Tx {
        d
    } else {
        let d1 = set_rx_step(d);
        if d1.pll.full {
            let d2 = validate_step(d1);
            DriverModel { pll: PllModel { full: false, ..d2.pll }, ..d2 }
        } else {
            d1
        }
    }
}

/// What `availabile` returns: `false` while transmitting, else whether a
/// validated packet is waiting after the step.
pub open spec fn available_result(d: DriverModel) -> bool {
    if d.mode == AskMode::Tx {
        false
    } else {
        available_step(d).rx_buf_valid
    }
}

/// The user payload of the packet in the receive buffer: everything
/// between the length-and-header prefix and the two FCS bytes.
pub open spec fn received_payload(d: DriverModel) -> Seq<u8> {
    d.pll.buf.subrange(5, d.pll.buf_len - 2)
}

/// The unencoded packet that `send` frames around a message: length byte,
/// the four outgoing headers, then the message itself.
pub open spec fn packet_bytes(d: DriverModel, msg: Seq<u8>) -> Seq<u8> {
    seq![
        (msg.len() + 7) as u8,
        d.tx_header_to,
        d.tx_header_from,
        d.tx_header_id,
        d.tx_header_flags,
    ] + msg
}

/// The four FCS symbols appended after the encoded packet: the nibbles of
/// the one's complement of the running CRC, low byte first and high nibble
/// first within each byte, one table symbol each.
pub open spec fn fcs_symbols(crc: u16) -> Seq<u8> {
    let f = !crc;
    seq![
        encode_nibble_spec(((f / 16) % 16) as u8),
        encode_nibble_spec((f % 16) as u8),
        encode_nibble_spec(((f / 4096) % 16) as u8),
        encode_nibble_spec(((f / 256) % 16) as u8),
    ]
}

/// Whether `send` accepts: the message fits and no transmission is in
/// flight.
pub open spec fn send_ok(d: DriverModel, msg: Seq<u8>) -> bool {
    msg.len() <= ASK_MAX_MESSAGE_LEN && d.mode != AskMode::Tx
}

/// The state after `send`: on acceptance the transmit buffer holds the
/// preamble, the encoded packet and the FCS symbols, and the driver enters
/// `Tx`; otherwise nothing changes.
pub open spec fn send_step(d: DriverModel, msg: Seq<u8>) -> DriverModel {
    if !send_ok(d, msg) {
        d
    } else {
        let packet = packet_bytes(d, msg);
        let tx_buf = preamble() + encode_bytes_spec(packet) + fcs_symbols(
            crc_seq(packet, 0xffff),
        );
        set_tx_step(DriverModel { tx_buf, tx_buf_len: tx_buf.len() as u8, ..d })
    }
}

/// The state of a freshly constructed driver.
pub open spec fn initial_driver(ticks_per_bit: u8, ptt_inverted: bool, rx_inverted: bool)
    -> DriverModel {
    DriverModel {
        mode: AskMode::Idle,
        pll: initial_pll(ticks_per_bit, rx_inverted),
        ticks_per_bit,
        tick_counter: 0,
        tx_buf: preamble(),
        this_address: BROADCAST_ADDRESS,
        promiscuous: false,
        tx_header_to: BROADCAST_ADDRESS,
        tx_header_from: BROADCAST_ADDRESS,
        tx_header_id: 0,
        tx_header_flags: 0,
        rx_header_to: 0,
        rx_header_from: 0,
        rx_header_id: 0,
        rx_header_flags: 0,
        ptt_inverted,
        tx_index: 0,
        tx_bit: 0,
        tx_sample: 0,
        tx_buf_len: 0,
        tx_good: 0,
        rx_bad: 0,
        rx_good: 0,
        rx_buf_valid: false,
        tx_level: false,
        ptt_level: ptt_phys(ptt_inverted, false),
    }
}

/// The boolean an optional construction flag stands for; absent means off.
pub open spec fn opt_flag(o: Option<bool>) -> bool {
    match o {
        Some(b) => b,
        None => false,
    }
}

/// A software Amplitude-Shift-Keying modem driver.
///
/// The driver owns a [`SoftwarePLL`] for reception and a symbol buffer for
/// transmission. It is driven by a periodic [`tick`](AskDriver::tick) that
/// takes the current receiver sample; the levels meant for the TX and PTT
/// lines are exposed as the [`tx_level`](AskDriver::tx_level) and
/// [`ptt_level`](AskDriver::ptt_level) fields.
#[derive(Debug)]
pub struct AskDriver {
    /// The current mode of the driver.
    pub mode: AskMode,
    /// The receiver PLL.
    pub pll: SoftwarePLL,
    /// Number of ticks per transmitted bit period.
    pub ticks_per_bit: u8,
    /// Ticks elapsed in the current transmit bit period.
    pub tick_counter: u8,
    /// The on-air symbol buffer: preamble, then the encoded packet.
    pub tx_buf: Vec<u8>,
    /// The station address of this driver.
    pub this_address: u8,
    /// Whether address filtering is disabled.
    pub promiscuous: bool,
    /// Destination address for the outgoing message header.
    pub tx_header_to: u8,
    /// Source address for the outgoing message header.
    pub tx_header_from: u8,
    /// Packet id for the outgoing message header.
    pub tx_header_id: u8,
    /// User flags for the outgoing message header.
    pub tx_header_flags: u8,
    /// Destination address from the last received message.
    pub rx_header_to: u8,
    /// Source address from the last received message.
    pub rx_header_from: u8,
    /// Packet id from the last received message.
    pub rx_header_id: u8,
    /// User flags from the last received message.
    pub rx_header_flags: u8,
    /// Whether the PTT line is driven inverted.
    pub ptt_inverted: bool,
    /// Index of the symbol currently being transmitted.
    pub tx_index: u8,
    /// Bit position inside the current 6-bit symbol (0 to 5).
    pub tx_bit: u8,
    /// Sample counter reserved by the transmit path.
    pub tx_sample: u8,
    /// Number of symbols queued for transmission.
    pub tx_buf_len: u8,
    /// Counter of completed transmissions; wraps.
    pub tx_good: u16,
    /// Counter of received packets dropped by validation; wraps.
    pub rx_bad: u16,
    /// Counter of received packets accepted and delivered; wraps.
    pub rx_good: u16,
    /// Whether a validated packet is waiting to be consumed.
    pub rx_buf_valid: bool,
    /// The level the TX line is to be driven to: `true` is carrier on.
    pub tx_level: bool,
    /// The level the PTT line is to be driven to.
    pub ptt_level: bool,
}

impl View for AskDriver {
    type V = DriverModel;

    open spec fn view(&self) -> DriverModel {
        DriverModel {
            mode: self.mode,
            pll: self.pll@,
            ticks_per_bit: self.ticks_per_bit,
            tick_counter: self.tick_counter,
            tx_buf: self.tx_buf@,
            this_address: self.this_address,
            promiscuous: self.promiscuous,
            tx_header_to: self.tx_header_to,
            tx_header_from: self.tx_header_from,
            tx_header_id: self.tx_header_id,
            tx_header_flags: self.tx_header_flags,
            rx_header_to: self.rx_header_to,
            rx_header_from: self.rx_header_from,
            rx_header_id: self.rx_header_id,
            rx_header_flags: self.rx_header_flags,
            ptt_inverted: self.ptt_inverted,
            tx_index: self.tx_index,
            tx_bit: self.tx_bit,
            tx_sample: self.tx_sample,
            tx_buf_len: self.tx_buf_len,
            tx_good: self.tx_good,
            rx_bad: self.rx_bad,
            rx_good: self.rx_good,
            rx_buf_valid: self.rx_buf_valid,
            tx_level: self.tx_level,
            ptt_level: self.ptt_level,
        }
    }
}

impl AskDriver {
    /// Well-formedness of this driver; see [`driver_wf`].
    pub open spec fn wf(&self) -> bool {
        driver_wf(self@)
    }

    /// Creates a new driver in `Idle` mode with the TX line low, the
    /// preamble prefilled and both addresses set to broadcast.
    /// `ticks_per_bit` is the number of `tick` calls per bit period.
    pub fn new(ticks_per_bit: u8, ptt_inverted: Option<bool>, rx_inverted: Option<bool>) -> (r:
        Self)
        requires
            2 <= ticks_per_bit,
        ensures
            r.wf(),
            r@ == initial_driver(ticks_per_bit, opt_flag(ptt_inverted), opt_flag(rx_inverted)),
    {
        let ptt_invert = match ptt_inverted {
            Some(p) => p,
            None => false,
        };
        let rx_invert = match rx_inverted {
            Some(p) => p,
            None => false,
        };
        let mut tx_buf: Vec<u8> = Vec::new();
        tx_buf.push(0x2a);
        tx_buf.push(0x2a);
        tx_buf.push(0x2a);
        tx_buf.push(0x2a);
        tx_buf.push(0x2a);
        tx_buf.push(0x2a);
        tx_buf.push(0x38);
        tx_buf.push(0x2c);
        let r = Self {
            mode: AskMode::Idle,
            pll: SoftwarePLL::new(ticks_per_bit, rx_invert),
            ticks_per_bit,
            tick_counter: 0,
            tx_buf,
            tx_header_to: BROADCAST_ADDRESS,
            tx_header_from: BROADCAST_ADDRESS,
            tx_header_id: 0,
            tx_header_flags: 0,
            rx_header_to: 0,
            rx_header_from: 0,
            rx_header_id: 0,
            rx_header_flags: 0,
            this_address: BROADCAST_ADDRESS,
            promiscuous: false,
            tx_good: 0,
            ptt_inverted: ptt_invert,
            tx_index: 0,
            tx_bit: 0,
            tx_sample: 0,
            tx_buf_len: 0,
            rx_good: 0,
            rx_bad: 0,
            rx_buf_valid: false,
            tx_level: false,
            // The released level of an inverted PTT line is high.
            ptt_level: ptt_invert,
        };
        proof {
            assert(r@.tx_buf =~= preamble());
            assert(r@ =~~= initial_driver(
                ticks_per_bit,
                opt_flag(ptt_inverted),
                opt_flag(rx_inverted),
            ));
            assert(r@.tx_buf.subrange(0, 8) =~= preamble());
        }
        r
    }

    /// Sets the station address used for packet filtering. Defaults to the
    /// broadcast address, which accepts everything.
    pub fn set_address(&mut self, addr: u8)
        ensures
            final(self)@ == (DriverModel { this_address: addr, ..old(self)@ }),
    {
        self.this_address = addr;
    }

    /// Records the level the TX line should be driven to.
    fn write_tx(&mut self, mode: bool)
        ensures
            final(self)@ == (DriverModel { tx_level: mode, ..old(self)@ }),
    {
        self.tx_level = mode;
    }

    /// Records the level the PTT line should be driven to, honouring the
    /// inversion flag.
    fn write_ptt(&mut self, mode: bool)
        ensures
            final(self)@ == (DriverModel {
                ptt_level: ptt_phys(old(self)@.ptt_inverted, mode),
                ..old(self)@
            }),
    {
        let state = if self.ptt_inverted {
            !mode
        } else {
            mode
        };
        self.ptt_level = state;
    }

    /// Puts the driver into `Idle`: PTT released, TX line low.
    pub fn set_mode_idle(&mut self)
        requires
            old(self).wf(),
        ensures
            final(self).wf(),
            final(self)@ == set_idle_step(old(self)@),
    {
        if self.mode != AskMode::Idle {
            self.write_ptt(false);
            self.write_tx(false);
            self.mode = AskMode::Idle;
        }
    }

    /// Puts the driver into receive mode: PTT released, TX line low, every
    /// subsequent tick feeds the PLL.
    pub fn set_mode_rx(&mut self)
        requires
            old(self).wf(),
        ensures
            final(self).wf(),
            final(self)@ == set_rx_step(old(self)@),
    {
        if self.mode != AskMode::Rx {
            self.write_ptt(false);
            self.write_tx(false);
            self.mode = AskMode::Rx;
        }
    }

    /// Puts the driver into transmit mode: transmit position rewound, PTT
    /// asserted. The queued symbol count must describe the buffer.
    pub fn set_mode_tx(&mut self)
        requires
            old(self).wf(),
            old(self)@.tx_buf_len == old(self)@.tx_buf.len(),
        ensures
            final(self).wf(),
            final(self)@ == set_tx_step(old(self)@),
    {
        if self.mode != AskMode::Tx {
            self.tx_index = 0;
            self.tx_bit = 0;
            self.tx_sample = 0;
            self.write_ptt(true);
            self.mode = AskMode::Tx;
        }
    }

    /// Checks whether a valid, complete message is waiting. Returns `false`
    /// while transmitting; otherwise forces receive mode, validates a frame
    /// the PLL has completed, and reports whether a validated packet is
    /// available. Does not consume the packet; `receive` does.
    pub fn availabile(&mut self) -> (r: bool)
        requires
            old(self).wf(),
        ensures
            final(self).wf(),
            final(self)@ == available_step(old(self)@),
            r == available_result(old(self)@),
    {
        if self.mode == AskMode::Tx {
            return false;
        }
        self.set_mode_rx();
        if self.pll.full {
            self.validate_rx_buf();
            self.pll.full = false;
        }
        self.rx_buf_valid
    }

    /// Validates the completed receive buffer: runs the CRC over every
    /// buffered byte and accepts the packet if the residue is right and the
    /// destination header matches this station, is broadcast, or the driver
    /// is promiscuous.
    pub fn validate_rx_buf(&mut self)
        requires
            pll_wf(old(self)@.pll),
            7 <= old(self)@.pll.buf_len,
        ensures
            final(self)@ == validate_step(old(self)@),
    {
        let mut crc: u16 = 0xffff;
        let n = self.pll.buf.len();
        let mut i: usize = 0;
        while i < n
            invariant
                i <= n,
                n == self.pll.buf@.len(),
                crc == crc_seq(self.pll.buf@.take(i as int), 0xffff),
            decreases n - i,
        {
            crc = crc_ccitt_update(crc, &self.pll.buf[i]);
            proof {
                lemma_crc_seq_push(self.pll.buf@.take(i as int), 0xffff, self.pll.buf@[i as int]);
                assert(self.pll.buf@.take(i as int).push(self.pll.buf@[i as int]) =~= self.pll.buf@
                    .take(i as int + 1));
            }
            i = i + 1;
        }
        proof {
            assert(self.pll.buf@.take(n as int) =~= self.pll.buf@);
        }
        if crc != 0xf0b8 {
            self.rx_bad = self.rx_bad.wrapping_add(1);
            self.rx_buf_valid = false;
            proof {
                assert(self@ =~~= validate_step(old(self)@));
            }
            return;
        }
        self.rx_header_to = self.pll.buf[1];
        self.rx_header_from = self.pll.buf[2];
        self.rx_header_id = self.pll.buf[3];
        self.rx_header_flags = self.pll.buf[4];
        if self.promiscuous || self.rx_header_to == self.this_address || self.rx_header_to
            == BROADCAST_ADDRESS {
            self.rx_good = self.rx_good.wrapping_add(1);
            self.rx_buf_valid = true;
        } else {
            self.rx_buf_valid = false;
        }
        proof {
            assert(self@ =~~= validate_step(old(self)@));
        }
    }

    /// Returns the payload of the waiting packet, if `availabile` reports
    /// one, and consumes it: the same packet is not returned twice. The
    /// payload excludes the length byte, the four headers and the two FCS
    /// bytes.
    pub fn receive(&mut self) -> (r: Option<Vec<u8>>)
        requires
            old(self).wf(),
        ensures
            final(self).wf(),
            available_result(old(self)@) ==> final(self)@ == (DriverModel {
                rx_buf_valid: false,
                ..available_step(old(self)@)
            }) && (r matches Some(v) && v@ == received_payload(available_step(old(self)@))),
            !available_result(old(self)@) ==> final(self)@ == available_step(old(self)@)
                && r is None,
    {
        if !self.availabile() {
            return None;
        }
        let message_len: u8 = self.pll.buf_len - 2;
        self.rx_buf_valid = false;
        let mut message: Vec<u8> = Vec::new();
        let mut i: usize = (ASK_HEADER_LEN as usize) + 1;
        while i < message_len as usize
            invariant
                5 <= i <= message_len,
                message_len == self.pll.buf_len - 2,
                self.pll.buf@.len() == self.pll.buf_len,
                7 <= self.pll.buf_len,
                message@.len() == i - 5,
                forall|j: int| 0 <= j < i - 5 ==> message@[j] == self.pll.buf@[j + 5],
            decreases message_len as int - i,
        {
            message.push(self.pll.buf[i]);
            i = i + 1;
        }
        proof {
            assert(message@ =~= self.pll.buf@.subrange(5, self.pll.buf_len - 2));
        }
        Some(message)
    }

    /// Advances the state machine by one timing tick, exactly one step of
    /// [`driver_tick_step`] on the given receiver sample. Must be called at
    /// a fixed cadence of `ticks_per_bit` calls per bit period; the sample
    /// is read only in `Rx` mode.
    #[verifier::rlimit(50)]
    pub fn tick(&mut self, rx: bool)
        requires
            old(self).wf(),
        ensures
            final(self).wf(),
            final(self)@ == driver_tick_step(old(self)@, rx),
    {
        if self.mode == AskMode::Rx {
            let was_active = self.pll.active;
            self.pll.update(rx);
            if !was_active && self.pll.active {
                self.rx_buf_valid = false;
            }
            if self.pll.full {
                proof {
                    assert(7 <= self.pll@.buf_len);
                }
                self.validate_rx_buf();
                self.pll.full = false;
                proof {
                    assert(self@.tx_buf == old(self)@.tx_buf);
                    assert(self@.rx_buf_valid ==> 7 <= self@.pll.buf_len);
                    assert(self@ =~~= driver_tick_step(old(self)@, rx));
                    assert(driver_wf(self@));
                }
            } else {
                proof {
                    assert(self@ =~~= driver_tick_step(old(self)@, rx));
                }
            }
        } else if self.mode == AskMode::Tx {
            self.tick_counter = self.tick_counter + 1;
            if self.tick_counter >= self.ticks_per_bit {
                self.tick_counter = 0;
                self.transmit_bit();
            }
            proof {
                assert(self@ =~~= driver_tick_step(old(self)@, rx));
            }
        }
    }

    /// Frames and queues a message for transmission: length byte, headers
    /// and payload are 4b6b-encoded behind the prefilled preamble, the four
    /// FCS symbols are appended, and the driver enters `Tx`. Returns
    /// `false`, changing nothing, if the message is longer than
    /// `ASK_MAX_MESSAGE_LEN` or a transmission is still in flight.
    pub fn send(&mut self, bytes: Vec<u8>) -> (r: bool)
        requires
            old(self).wf(),
        ensures
            final(self).wf(),
            final(self)@ == send_step(old(self)@, bytes@),
            r == send_ok(old(self)@, bytes@),
            send_ok(old(self)@, bytes@) ==> final(self)@.tx_buf.len() == ASK_PREAMBLE_LEN + 2 * (1
                + ASK_HEADER_LEN + bytes@.len()) + 4,
    {
        if bytes.len() > ASK_MAX_MESSAGE_LEN as usize {
            return false;
        }
        if self.mode == AskMode::Tx {
            return false;
        }
        let ghost d0 = old(self)@;
        let ghost packet = packet_bytes(d0, bytes@);
        let mut crc: u16 = 0xffff;
        let count: u8 = bytes.len() as u8 + 3 + ASK_HEADER_LEN;
        self.tx_buf.truncate(ASK_PREAMBLE_LEN as usize);
        proof {
            assert(self.tx_buf@ =~= preamble());
        }
        let ghost mut fed: Seq<u8> = Seq::empty();
        proof {
            assert(encode_bytes_spec(fed) =~= Seq::<u8>::empty());
            assert(self.tx_buf@ =~= preamble() + encode_bytes_spec(fed));
        }
        crc = self.feed_byte(crc, count);
        proof {
            lemma_crc_seq_push(fed, 0xffff, count);
            lemma_encode_bytes_push(fed, count);
            fed = fed.push(count);
        }
        let to = self.tx_header_to;
        crc = self.feed_byte(crc, to);
        proof {
            lemma_crc_seq_push(fed, 0xffff, to);
            lemma_encode_bytes_push(fed, to);
            fed = fed.push(to);
        }
        let from = self.tx_header_from;
        crc = self.feed_byte(crc, from);
        proof {
            lemma_crc_seq_push(fed, 0xffff, from);
            lemma_encode_bytes_push(fed, from);
            fed = fed.push(from);
        }
        let id = self.tx_header_id;
        crc = self.feed_byte(crc, id);
        proof {
            lemma_crc_seq_push(fed, 0xffff, id);
            lemma_encode_bytes_push(fed, id);
            fed = fed.push(id);
        }
        let flags = self.tx_header_flags;
        crc = self.feed_byte(crc, flags);
        proof {
            lemma_crc_seq_push(fed, 0xffff, flags);
            lemma_encode_bytes_push(fed, flags);
            fed = fed.push(flags);
            assert(fed =~= packet.take(5));
        }
        let mut i: usize = 0;
        while i < bytes.len()
            invariant
                i <= bytes@.len(),
                bytes@.len() <= ASK_MAX_MESSAGE_LEN,
                fed == packet.take(5 + i as int),
                packet == packet_bytes(d0, bytes@),
                crc == crc_seq(fed, 0xffff),
                self@ == (DriverModel {
                    tx_buf: preamble() + encode_bytes_spec(fed),
                    ..d0
                }),
            decreases bytes@.len() - i,
        {
            let b = bytes[i];
            crc = self.feed_byte(crc, b);
            proof {
                lemma_crc_seq_push(fed, 0xffff, b);
                lemma_encode_bytes_push(fed, b);
                fed = fed.push(b);
                assert(fed =~= packet.take(5 + i as int + 1));
            }
            i = i + 1;
        }
        proof {
            assert(fed =~= packet);
        }
        let f: u16 = !crc;
        proof {
            assert(((f >> 4) & 0xf) == (f / 16) % 16 && (f & 0xf) == f % 16 && ((f >> 12) & 0xf)
                == (f / 4096) % 16 && ((f >> 8) & 0xf) == (f / 256) % 16) by (bit_vector);
        }
        let s0 = symbol_for(#[verifier::truncate] (((f >> 4) & 0xf) as u8));
        let s1 = symbol_for(#[verifier::truncate] ((f & 0xf) as u8));
        let s2 = symbol_for(#[verifier::truncate] (((f >> 12) & 0xf) as u8));
        let s3 = symbol_for(#[verifier::truncate] (((f >> 8) & 0xf) as u8));
        self.tx_buf.push(s0);
        self.tx_buf.push(s1);
        self.tx_buf.push(s2);
        self.tx_buf.push(s3);
        proof {
            assert(self.tx_buf@ =~= preamble() + encode_bytes_spec(packet) + fcs_symbols(
                crc_seq(packet, 0xffff),
            ));
        }
        self.tx_buf_len = self.tx_buf.len() as u8;
        proof {
            lemma_tx_buf_symbols(packet, crc_seq(packet, 0xffff));
            let tb = self@.tx_buf;
            let e = encode_bytes_spec(packet);
            assert(tb.len() == 8 + e.len() + 4);
            assert(tb.subrange(0, 8) =~= preamble());
            assert forall|j: int| 8 <= j < tb.len() implies is_symbol(#[trigger] tb[j]) by {
                if j < 8 + e.len() {
                    assert(tb[j] == e[j - 8]);
                } else {
                    assert(tb[j] == fcs_symbols(crc_seq(packet, 0xffff))[j - 8 - e.len()]);
                }
            }
            assert(self.wf());
        }
        self.set_mode_tx();
        proof {
            assert(self@ =~~= send_step(d0, bytes@));
        }
        true
    }

    /// Feeds one packet byte: advances the CRC and appends the byte's two
    /// symbols to the transmit buffer.
    fn feed_byte(&mut self, crc: u16, b: u8) -> (r: u16)
        ensures
            r == crc_update_spec(crc, b),
            final(self)@ == (DriverModel {
                tx_buf: old(self)@.tx_buf + seq![
                    encode_nibble_spec(hi_nib(b)),
                    encode_nibble_spec(lo_nib(b)),
                ],
                ..old(self)@
            }),
    {
        let r = crc_ccitt_update(crc, &b);
        let pair = encode_4b6b(b);
        self.tx_buf.push(pair[0]);
        self.tx_buf.push(pair[1]);
        proof {
            assert(self@.tx_buf =~= old(self)@.tx_buf + seq![
                encode_nibble_spec(hi_nib(b)),
                encode_nibble_spec(lo_nib(b)),
            ]);
        }
        r
    }

    /// Emits the next transmit bit, or finishes the transmission when the
    /// buffer is drained.
    fn transmit_bit(&mut self)
        requires
            old(self).wf(),
            old(self)@.mode == AskMode::Tx,
        ensures
            final(self).wf(),
            final(self)@ == transmit_bit_step(old(self)@),
    {
        if self.tx_index >= self.tx_buf_len {
            self.tx_good = self.tx_good.wrapping_add(1);
            self.set_mode_idle();
        } else {
            let bit = self.tx_buf[self.tx_index as usize] & (1u8 << self.tx_bit);
            self.tx_bit = self.tx_bit + 1;
            self.write_tx(bit != 0);
            if self.tx_bit >= 6 {
                self.tx_bit = 0;
                self.tx_index = self.tx_index + 1;
            }
            proof {
                assert(self@ =~~= transmit_bit_step(old(self)@));
            }
        }
    }
}

/// Every symbol a `send` queues after the preamble is in the 4b6b table.
proof fn lemma_tx_buf_symbols(packet: Seq<u8>, crc: u16)
    ensures
        forall|i: int|
            0 <= i < encode_bytes_spec(packet).len() ==> is_symbol(
                #[trigger] encode_bytes_spec(packet)[i],
            ),
        forall|i: int| 0 <= i < 4 ==> is_symbol(#[trigger] fcs_symbols(crc)[i]),
{
    let e = encode_bytes_spec(packet);
    assert forall|i: int| 0 <= i < e.len() implies is_symbol(#[trigger] e[i]) by {
        let b = packet[i / 2];
        if i % 2 == 0 {
            lemma_nibble_roundtrip(hi_nib(b));
        } else {
            lemma_nibble_roundtrip(lo_nib(b));
        }
    }
    let f = !crc;
    lemma_nibble_roundtrip(((f / 16) % 16) as u8);
    lemma_nibble_roundtrip((f % 16) as u8);
    lemma_nibble_roundtrip(((f / 4096) % 16) as u8);
    lemma_nibble_roundtrip(((f / 256) % 16) as u8);
}

/// The two FCS bytes that follow a packet on the air, before encoding: the
/// one's complement of the packet's running CRC, low byte first.
pub open spec fn fcs_bytes(crc: u16) -> Seq<u8> {
    seq![(!crc & 0xff) as u8, (!crc >> 8) as u8]
}

/// The four FCS symbols are exactly the 4b6b encoding of the two FCS bytes,
/// low byte first.
proof fn lemma_fcs_symbols_encode(crc: u16)
    ensures
        fcs_symbols(crc) == encode_bytes_spec(fcs_bytes(crc)),
{
    let f = !crc;
    let lo = (f & 0xff) as u8;
    let hi = (f >> 8) as u8;
    assert(lo / 16 == (f / 16) % 16 && lo % 16 == f % 16 && hi / 16 == (f / 4096) % 16 && hi % 16
        == (f / 256) % 16) by (bit_vector)
        requires
            lo == (f & 0xff) as u8 && hi == (f >> 8) as u8,
    ;
    assert(fcs_symbols(crc) =~= encode_bytes_spec(fcs_bytes(crc)));
}

/// Law of the framed round trip: the symbol stream a `send` queues after
/// the preamble decodes back to the framed packet — length byte, headers,
/// message and FCS — whose running CRC ends at the residue `0xF0B8`, so a
/// receiver that recovers those symbols cleanly accepts the frame; and the
/// payload it then extracts is the message that was sent.
pub proof fn lemma_sent_frame_validates(d: DriverModel, msg: Seq<u8>)
    requires
        send_ok(d, msg),
    ensures
        ({
            let wire = send_step(d, msg).tx_buf.skip(8);
            let frame = packet_bytes(d, msg) + fcs_bytes(crc_seq(packet_bytes(d, msg), 0xffff));
            &&& decode_buffer_ok(wire)
            &&& decode_bytes_spec(wire) == frame
            &&& crc_seq(frame, 0xffff) == 0xf0b8
            &&& frame.subrange(5, frame.len() - 2) == msg
        }),
{
    let packet = packet_bytes(d, msg);
    let c = crc_seq(packet, 0xffff);
    let fcs = fcs_bytes(c);
    let frame = packet + fcs;
    let wire = send_step(d, msg).tx_buf.skip(8);

    lemma_fcs_symbols_encode(c);
    lemma_encode_bytes_push(packet, fcs[0]);
    lemma_encode_bytes_push(packet.push(fcs[0]), fcs[1]);
    assert(packet.push(fcs[0]).push(fcs[1]) =~= frame);
    assert(encode_bytes_spec(fcs) =~= seq![
        encode_nibble_spec(hi_nib(fcs[0])),
        encode_nibble_spec(lo_nib(fcs[0])),
        encode_nibble_spec(hi_nib(fcs[1])),
        encode_nibble_spec(lo_nib(fcs[1])),
    ]);
    assert(wire =~= encode_bytes_spec(frame));

    crate::encoding::lemma_encode_then_decode(frame);

    crate::crc::lemma_crc_seq_append(packet, fcs, 0xffff);
    assert(fcs =~= seq![fcs[0], fcs[1]]);
    crate::crc::lemma_crc_seq_two(c, fcs[0], fcs[1]);
    crate::crc::lemma_crc_fcs_residue(c, fcs[0], fcs[1]);

    assert(frame.subrange(5, frame.len() - 2) =~= msg);
}

/// Law of the idle tick: outside `Rx` and `Tx` a tick has no effect at all
/// — in particular none on the TX and PTT levels or any counter.
pub proof fn lemma_tick_idle_no_effect(d: DriverModel, rx: bool)
    requires
        d.mode != AskMode::Rx,
        d.mode != AskMode::Tx,
    ensures
        driver_tick_step(d, rx) == d,
{
}

/// Law of transmit cadence: in `Tx` mode only every `ticks_per_bit`-th tick
/// emits a bit; the ticks between advance the counter and nothing else.
/// The emitting tick drives the TX line to the current bit of the current
/// symbol (LSB first) and advances the bit position by exactly one, and
/// `tx_good` is counted exactly on the tick that drains the buffer, which
/// also returns the driver to `Idle`.
pub proof fn lemma_tx_cadence(d: DriverModel, rx: bool)
    requires
        driver_wf(d),
        d.mode == AskMode::Tx,
    ensures
        d.tick_counter + 1 < d.ticks_per_bit ==> driver_tick_step(d, rx) == (DriverModel {
            tick_counter: (d.tick_counter + 1) as u8,
            ..d
        }),
        d.tick_counter + 1 >= d.ticks_per_bit ==> driver_tick_step(d, rx) == transmit_bit_step(
            DriverModel { tick_counter: 0, ..d },
        ),
        (d.tick_counter + 1 >= d.ticks_per_bit && d.tx_index < d.tx_buf_len) ==> {
            let r = driver_tick_step(d, rx);
            &&& r.tx_level == (d.tx_buf[d.tx_index as int] & (1u8 << d.tx_bit) != 0)
            &&& r.tx_good == d.tx_good
            &&& r.mode == AskMode::Tx
            &&& 6 * r.tx_index + r.tx_bit == 6 * d.tx_index + d.tx_bit + 1
        },
        (d.tick_counter + 1 >= d.ticks_per_bit && d.tx_index >= d.tx_buf_len) ==> {
            let r = driver_tick_step(d, rx);
            &&& r.tx_good == wrap_inc(d.tx_good)
            &&& r.mode == AskMode::Idle
        },
{
}

/// Law of delivery: a tick leaves `rx_good` untouched and makes no new
/// packet available unless the PLL completes a frame on that very tick. In
/// particular, a frame the PLL drops — for a bad length field or an invalid
/// symbol — never increments `rx_good` and never sets `rx_buf_valid`.
pub proof fn lemma_no_frame_no_delivery(d: DriverModel, rx: bool)
    requires
        d.mode == AskMode::Rx ==> !pll_tick_step(d.pll, rx).full,
    ensures
        driver_tick_step(d, rx).rx_good == d.rx_good,
        driver_tick_step(d, rx).rx_buf_valid ==> d.rx_buf_valid,
{
}

} // verus!

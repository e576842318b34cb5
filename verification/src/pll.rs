//! Software phase-locked loop for ASK/OOK demodulation.
//!
//! The PLL samples the receiver line once per tick, tracks the position
//! inside the current bit period with a phase ramp, nudges the ramp on every
//! signal edge to stay locked to the sender's clock, and decides each bit by
//! majority vote over the samples of its period. Recovered bits are shifted
//! into a 12-bit window; while hunting, the window is compared against the
//! start symbol, and once locked, every 12 bits are decoded as one 4b6b
//! symbol pair into the receive buffer.
//!
//! The whole per-tick behaviour is captured by the transition function
//! [`pll_tick_step`]; [`SoftwarePLL::update`] is proved to implement it.

use crate::consts::ASK_MAX_PAYLOAD_LEN;
use crate::consts::ASK_START_SYMBOL;
use crate::encoding::decode_6b4b;
use crate::encoding::decode_pair_spec;
use vstd::prelude::*;

verus! {

/// The mathematical state of a [`SoftwarePLL`], with the receive buffer as
/// a sequence.
#[verifier::ext_equal]
pub ghost struct PllModel {
    /// The rolling window of the last 12 recovered bits.
    pub bits: u16,
    /// Phase position within the current bit period.
    pub ramp: u16,
    /// Number of high samples seen in the current bit period.
    pub integrator: u16,
    /// The previous sample, for edge detection.
    pub last_sample: bool,
    /// Recovered bits since the last completed symbol pair.
    pub bit_count: u8,
    /// Ramp units per bit period.
    pub ramp_len: u16,
    /// Ramp increment on a tick without an edge.
    pub ramp_inc: u16,
    /// Ramp increment on an early edge.
    pub ramp_retard: u16,
    /// Ramp increment on a late edge.
    pub ramp_advance: u16,
    /// Whether input samples are inverted before use.
    pub inverted: bool,
    /// Whether the start symbol has been seen and a frame is being read.
    pub active: bool,
    /// Bytes collected so far for the current frame.
    pub buf_len: u8,
    /// The announced frame length, from the first decoded byte.
    pub count: u8,
    /// Number of frames dropped before completion.
    pub bad: u16,
    /// Whether a complete frame is waiting to be validated.
    pub full: bool,
    /// The decoded bytes of the frame.
    pub buf: Seq<u8>,
}

/// A 16-bit counter increment that wraps around instead of overflowing.
pub open spec fn wrap_inc(x: u16) -> u16 {
    if x == 0xffff {
        0
    } else {
        (x + 1) as u16
    }
}

/// Well-formedness of a PLL state: calibration constants as construction
/// sets them, the phase ramp inside one bit period, the integrator bounded
/// by the ticks that fed it, a 12-bit window, and a locked frame whose
/// announced length is credible and not yet reached.
pub open spec fn pll_wf(m: PllModel) -> bool {
    &&& m.ramp_inc == 20
    &&& m.ramp_retard == 11
    &&& m.ramp_advance == 29
    &&& 40 <= m.ramp_len <= 5100
    &&& m.ramp < m.ramp_len
    &&& 11 * (m.integrator as int) <= m.ramp + 11
    &&& m.bits < 0x1000
    &&& m.bit_count <= 12
    &&& (m.active ==> m.bit_count < 12)
    &&& m.buf.len() == m.buf_len
    &&& m.buf_len <= ASK_MAX_PAYLOAD_LEN
    &&& (m.active ==> m.buf_len < m.count && 7 <= m.count && m.count <= ASK_MAX_PAYLOAD_LEN)
}

/// What happens after a recovered bit lands in the window: while hunting,
/// the window is matched against the start symbol; while locked, every
/// twelfth bit completes a symbol pair that is decoded and buffered. A pair
/// outside the symbol table, or a first byte announcing a length outside
/// `[7, ASK_MAX_PAYLOAD_LEN]`, drops the frame and counts it as bad.
pub open spec fn pll_frame_step(m: PllModel) -> PllModel {
    if m.active {
        let bit_count = (m.bit_count + 1) as u8;
        if bit_count >= 12 {
            match decode_pair_spec((m.bits & 0x3f) as u8, (m.bits >> 6) as u8) {
                Some(byte) => {
                    if m.buf_len == 0 && (byte < 7 || byte > ASK_MAX_PAYLOAD_LEN) {
                        PllModel { active: false, bad: wrap_inc(m.bad), count: byte, bit_count, ..m }
                    } else {
                        let count = if m.buf_len == 0 {
                            byte
                        } else {
                            m.count
                        };
                        let buf_len = (m.buf_len + 1) as u8;
                        PllModel {
                            buf: m.buf.push(byte),
                            buf_len,
                            count,
                            bit_count: 0,
                            active: buf_len < count,
                            full: if buf_len >= count {
                                true
                            } else {
                                m.full
                            },
                            ..m
                        }
                    }
                },
                None => PllModel { active: false, bad: wrap_inc(m.bad), bit_count, ..m },
            }
        } else {
            PllModel { bit_count, ..m }
        }
    } else if m.bits == ASK_START_SYMBOL {
        PllModel {
            active: true,
            bit_count: 0,
            buf_len: 0,
            buf: Seq::empty(),
            count: ASK_MAX_PAYLOAD_LEN,
            ..m
        }
    } else {
        m
    }
}

/// One recovered bit: shifted into the window LSB-first (it enters at bit
/// 11), followed by the framing logic of [`pll_frame_step`].
pub open spec fn pll_shift_step(m: PllModel, one: bool) -> PllModel {
    let bits: u16 = if one {
        (m.bits >> 1) | 0x800
    } else {
        m.bits >> 1
    };
    pll_frame_step(PllModel { bits, ..m })
}

/// One tick: sample, integrate, adjust the phase ramp on edges, and when
/// the ramp crosses a bit boundary, recover the bit by majority vote and
/// shift it into the window.
pub open spec fn pll_tick_step(m: PllModel, rx: bool) -> PllModel {
    let sample = if m.inverted {
        !rx
    } else {
        rx
    };
    let integrator: u16 = if sample {
        (m.integrator + 1) as u16
    } else {
        m.integrator
    };
    let ramp: u16 = if sample != m.last_sample {
        if m.ramp < m.ramp_len / 2 {
            (m.ramp + m.ramp_retard) as u16
        } else {
            (m.ramp + m.ramp_advance) as u16
        }
    } else {
        (m.ramp + m.ramp_inc) as u16
    };
    let m1 = PllModel { integrator, ramp, last_sample: sample, ..m };
    if ramp >= m.ramp_len {
        let m2 = PllModel { ramp: (ramp - m.ramp_len) as u16, integrator: 0, ..m1 };
        pll_shift_step(m2, integrator >= 5)
    } else {
        m1
    }
}

/// A software phase-locked loop that recovers bits and frames from a
/// periodically sampled ASK receiver line.
#[derive(Debug)]
pub struct SoftwarePLL {
    /// Last 12 recovered bits, for start-symbol detection and decoding.
    pub bits: u16,
    /// Phase accumulator tracking the position within one bit period.
    pub ramp: u16,
    /// Count of high samples within the current bit period.
    pub integrator: u16,
    /// The previous sample value, used to detect edges.
    pub last_sample: bool,
    /// Recovered bits since the last completed symbol pair.
    pub bit_count: u8,
    /// The number of phase units per bit: `20 * ticks_per_bit`.
    pub ramp_len: u16,
    /// Default ramp increment per tick, with no timing correction.
    pub ramp_inc: u16,
    /// Ramp increment used when an edge arrives early in the bit period.
    pub ramp_retard: u16,
    /// Ramp increment used when an edge arrives late in the bit period.
    pub ramp_advance: u16,
    /// Whether the read samples should be inverted.
    pub inverted: bool,
    /// Whether the start symbol has been seen and a frame is being read.
    pub active: bool,
    /// The current length of the receive buffer.
    pub buf_len: u8,
    /// The announced byte count of the frame being received.
    pub count: u8,
    /// The number of bad frames dropped before completion.
    pub bad: u16,
    /// Whether a complete frame is waiting in the buffer.
    pub full: bool,
    /// The decoded bytes of the frame.
    pub buf: Vec<u8>,
}

impl View for SoftwarePLL {
    type V = PllModel;

    open spec fn view(&self) -> PllModel {
        PllModel {
            bits: self.bits,
            ramp: self.ramp,
            integrator: self.integrator,
            last_sample: self.last_sample,
            bit_count: self.bit_count,
            ramp_len: self.ramp_len,
            ramp_inc: self.ramp_inc,
            ramp_retard: self.ramp_retard,
            ramp_advance: self.ramp_advance,
            inverted: self.inverted,
            active: self.active,
            buf_len: self.buf_len,
            count: self.count,
            bad: self.bad,
            full: self.full,
            buf: self.buf@,
        }
    }
}

impl SoftwarePLL {
    /// Well-formedness of this PLL; see [`pll_wf`].
    pub open spec fn wf(&self) -> bool {
        pll_wf(self@)
    }

    /// Creates a new, zeroed software PLL instance hunting for a start
    /// symbol. `ticks_per_bit` is the number of samples per bit period.
    pub fn new(ticks_per_bit: u8, inverted: bool) -> (r: Self)
        requires
            2 <= ticks_per_bit,
        ensures
            r.wf(),
            r@ == initial_pll(ticks_per_bit, inverted),
    {
        let ramp_len: u16 = (ticks_per_bit as u16) * 20;
        let ramp_inc: u16 = ramp_len / (ticks_per_bit as u16);
        proof {
            assert((20 * (ticks_per_bit as int)) / (ticks_per_bit as int) == 20)
                by (nonlinear_arith)
                requires
                    2 <= ticks_per_bit,
            ;
        }
        let ramp_adjust: u16 = 9;
        let ramp_retard: u16 = ramp_inc - ramp_adjust;
        let ramp_advance: u16 = ramp_inc + ramp_adjust;
        Self {
            ramp: 0,
            integrator: 0,
            last_sample: false,
            bit_count: 0,
            active: false,
            bits: 0,
            buf_len: 0,
            count: 0,
            full: false,
            buf: Vec::new(),
            ramp_len,
            ramp_inc,
            ramp_retard,
            ramp_advance,
            inverted,
            bad: 0,
        }
    }

    /// Updates the PLL state from the current input sample, exactly one
    /// step of [`pll_tick_step`]. Should be called once per timing tick.
    pub fn update(&mut self, rx: bool)
        requires
            old(self).wf(),
        ensures
            final(self).wf(),
            final(self)@ == pll_tick_step(old(self)@, rx),
    {
        let sample = if self.inverted {
            !rx
        } else {
            rx
        };
        if sample {
            self.integrator = self.integrator + 1;
        }
        if sample != self.last_sample {
            self.ramp = if self.ramp < self.ramp_len / 2 {
                self.ramp + self.ramp_retard
            } else {
                self.ramp + self.ramp_advance
            };
            self.last_sample = sample;
        } else {
            self.ramp = self.ramp + self.ramp_inc;
        }
        if self.ramp >= self.ramp_len {
            self.bits = self.bits >> 1;
            if self.integrator >= 5 {
                self.bits = self.bits | 0x800;
            }
            proof {
                let b = old(self)@.bits;
                assert(b < 0x1000 ==> (b >> 1) < 0x800 && ((b >> 1) | 0x800) < 0x1000 && (b >> 1)
                    < 0x1000) by (bit_vector);
            }
            self.ramp = self.ramp - self.ramp_len;
            self.integrator = 0;
            if self.active {
                self.bit_count = self.bit_count + 1;
                if self.bit_count >= 12 {
                    let hi6 = #[verifier::truncate] ((self.bits & 0x3f) as u8);
                    let lo6 = #[verifier::truncate] ((self.bits >> 6) as u8);
                    match decode_6b4b(&hi6, &lo6) {
                        Some(byte) => {
                            if self.buf_len == 0 && (byte < 7 || byte > ASK_MAX_PAYLOAD_LEN) {
                                self.count = byte;
                                self.active = false;
                                self.bad = self.bad.wrapping_add(1);
                            } else {
                                if self.buf_len == 0 {
                                    self.count = byte;
                                }
                                self.buf.push(byte);
                                self.buf_len = self.buf_len + 1;
                                if self.buf_len >= self.count {
                                    self.active = false;
                                    self.full = true;
                                }
                                self.bit_count = 0;
                            }
                        },
                        None => {
                            self.active = false;
                            self.bad = self.bad.wrapping_add(1);
                        },
                    }
                }
            } else if self.bits == ASK_START_SYMBOL {
                self.active = true;
                self.bit_count = 0;
                self.buf_len = 0;
                self.buf.clear();
                self.count = ASK_MAX_PAYLOAD_LEN;
            }
        }
        proof {
            assert(self@ =~= pll_tick_step(old(self)@, rx));
        }
    }
}

/// The state of a freshly constructed PLL.
pub open spec fn initial_pll(ticks_per_bit: u8, inverted: bool) -> PllModel {
    PllModel {
        bits: 0,
        ramp: 0,
        integrator: 0,
        last_sample: false,
        bit_count: 0,
        ramp_len: (20 * ticks_per_bit) as u16,
        ramp_inc: 20,
        ramp_retard: 11,
        ramp_advance: 29,
        inverted,
        active: false,
        buf_len: 0,
        count: 0,
        bad: 0,
        full: false,
        buf: Seq::empty(),
    }
}

/// The twelve bits of the start symbol in the order they cross the air,
/// LSB of `ASK_START_SYMBOL` first.
pub open spec fn start_symbol_bits() -> Seq<bool> {
    Seq::new(12, |j: int| (ASK_START_SYMBOL >> (j as u16)) & 1 == 1)
}

/// The PLL state after a run of recovered bits is shifted in, one
/// [`pll_shift_step`] per bit.
pub open spec fn pll_shift_steps(m: PllModel, bs: Seq<bool>) -> PllModel
    decreases bs.len(),
{
    if bs.len() == 0 {
        m
    } else {
        pll_shift_steps(pll_shift_step(m, bs[0]), bs.drop_first())
    }
}

/// A locked PLL stays locked while fewer than twelve bits of the next
/// symbol pair have arrived.
proof fn lemma_active_stays(m: PllModel, bs: Seq<bool>)
    requires
        m.active,
        m.bit_count + bs.len() <= 11,
    ensures
        pll_shift_steps(m, bs).active,
    decreases bs.len(),
{
    if bs.len() > 0 {
        let m1 = pll_shift_step(m, bs[0]);
        assert(m1.active && m1.bit_count == m.bit_count + 1);
        lemma_active_stays(m1, bs.drop_first());
    }
}

/// Inductive core of start-symbol detection: if the window already holds
/// the first `k` start-symbol bits in its top positions, feeding the
/// remaining bits leaves the PLL locked.
proof fn lemma_hunt(m: PllModel, k: u16)
    requires
        k < 12,
        !m.active,
        m.bits < 0x1000,
        m.bits >> ((12 - k) as u16) == ASK_START_SYMBOL & !(0xffffu16 << k),
    ensures
        pll_shift_steps(m, start_symbol_bits().skip(k as int)).active,
    decreases 12 - k,
{
    let bs = start_symbol_bits().skip(k as int);
    let one = bs[0];
    assert(one == ((ASK_START_SYMBOL >> k) & 1 == 1));
    let b = m.bits;
    let b2: u16 = if one {
        (b >> 1) | 0x800
    } else {
        b >> 1
    };
    assert(b2 < 0x1000 && (k == 11 ==> b2 == ASK_START_SYMBOL) && (k < 11 ==> b2 >> ((12 - (k + 1))
        as u16) == ASK_START_SYMBOL & !(0xffffu16 << ((k + 1) as u16)))) by (bit_vector)
        requires
            b < 0x1000,
            k < 12,
            b >> ((12 - k) as u16) == ASK_START_SYMBOL & !(0xffffu16 << k),
            one == ((ASK_START_SYMBOL >> k) & 1 == 1),
            b2 == (if one {
                (b >> 1) | 0x800
            } else {
                b >> 1
            }),
    ;
    let m1 = pll_shift_step(m, one);
    assert(bs.drop_first() =~= start_symbol_bits().skip(k as int + 1));
    if b2 == ASK_START_SYMBOL {
        assert(m1.active && m1.bit_count == 0);
        lemma_active_stays(m1, bs.drop_first());
    } else {
        assert(k < 11);
        assert(!m1.active && m1.bits == b2);
        lemma_hunt(m1, (k + 1) as u16);
    }
}

/// Law of start-symbol detection: whatever a hunting PLL's window held
/// before, after the twelve bits of the start symbol are recovered in
/// order, the PLL is locked onto a frame.
pub proof fn lemma_start_symbol_detection(m: PllModel)
    requires
        !m.active,
        m.bits < 0x1000,
    ensures
        pll_shift_steps(m, start_symbol_bits()).active,
{
    let b = m.bits;
    assert(b < 0x1000 ==> b >> 12u16 == ASK_START_SYMBOL & !(0xffffu16 << 0u16)) by (bit_vector);
    assert(start_symbol_bits().skip(0) =~= start_symbol_bits());
    lemma_hunt(m, 0);
}

/// Law of the length guard: a locked frame whose first decoded byte
/// announces a length below 7 or above `ASK_MAX_PAYLOAD_LEN` is dropped
/// silently — the PLL unlocks, one bad frame is counted, and no frame is
/// ever reported complete.
pub proof fn lemma_bad_length_dropped(m: PllModel)
    requires
        m.active,
        m.bit_count == 11,
        m.buf_len == 0,
        ({
            let d = decode_pair_spec((m.bits & 0x3f) as u8, (m.bits >> 6) as u8);
            d matches Some(b) && (b < 7 || b > ASK_MAX_PAYLOAD_LEN)
        }),
    ensures
        !pll_frame_step(m).active,
        pll_frame_step(m).full == m.full,
        pll_frame_step(m).bad == wrap_inc(m.bad),
        pll_frame_step(m).buf == m.buf,
        pll_frame_step(m).buf_len == m.buf_len,
{
}

} // verus!

use ask433::pll::SoftwarePLL;

const START_SYMBOL: u16 = 0xb38;
const PREAMBLE: [u8; 8] = [0x2a, 0x2a, 0x2a, 0x2a, 0x2a, 0x2a, 0x38, 0x2c];

/// The on-air waveform of a symbol stream: each 6-bit symbol LSB-first,
/// each bit held for `ticks_per_bit` samples.
fn waveform(symbols: &[u8], ticks_per_bit: usize) -> Vec<bool> {
    let mut w = Vec::new();
    for &s in symbols {
        for j in 0..6 {
            for _ in 0..ticks_per_bit {
                w.push((s >> j) & 1 == 1);
            }
        }
    }
    w
}

/// Feeds a waveform into the PLL, with trailing silence so the last bit
/// period completes.
fn feed(pll: &mut SoftwarePLL, wave: &[bool]) {
    for &s in wave {
        pll.update(s);
    }
    for _ in 0..30 {
        pll.update(false);
    }
}

#[test]
fn test_pll_initialization_defaults() {
    let pll = SoftwarePLL::new(8, false);
    assert_eq!(pll.ramp, 0);
    assert_eq!(pll.integrator, 0);
    assert_eq!(pll.bit_count, 0);
    assert_eq!(pll.active, false);
    assert_eq!(pll.full, false);
    assert_eq!(pll.buf_len, 0);
}

#[test]
fn test_pll_updates_on_tick_with_high_signal() {
    let mut pll = SoftwarePLL::new(8, false);
    pll.update(true);

    // Should increment integrator if sample was high
    assert!(pll.integrator > 0);
}

#[test]
fn test_pll_detects_start_symbol() {
    let mut pll = SoftwarePLL::new(8, false);
    pll.bits = START_SYMBOL << 1; // Shifted to simulate previous bits
    pll.ramp = pll.ramp_len;

    // Should detect start symbol and set active
    pll.update(true);

    assert!(pll.active);
}

#[test]
fn test_pll_inverts_signal_when_flagged() {
    let mut pll = SoftwarePLL::new(8, true);
    pll.update(true);

    // Inverted high is low: integrator should remain zero
    assert_eq!(pll.integrator, 0);
}

#[test]
fn test_start_symbol_recognized_after_arbitrary_prefix() {
    // Whatever the window held before, a preamble ending in the twelve
    // start-symbol bits locks the PLL.
    let mut pll = SoftwarePLL::new(8, false);
    // Garbage prefix: symbols that are not part of a preamble.
    feed(&mut pll, &waveform(&[0x2b, 0x07], 8));
    assert!(!pll.active);
    feed(&mut pll, &waveform(&PREAMBLE, 8));
    assert!(pll.active);
}

#[test]
fn test_length_guard_drops_short_count() {
    // A frame whose first decoded byte announces length 6 is dropped
    // silently: one bad frame, nothing completed, nothing buffered. Byte 6
    // encodes as the symbols 0x0d (high nibble 0) and 0x1a (low nibble 6).
    let mut pll = SoftwarePLL::new(8, false);
    let mut symbols = PREAMBLE.to_vec();
    symbols.push(0x0d);
    symbols.push(0x1a);
    feed(&mut pll, &waveform(&symbols, 8));
    assert!(!pll.active);
    assert!(!pll.full);
    assert_eq!(pll.bad, 1);
    assert_eq!(pll.buf_len, 0);
}

#[test]
fn test_invalid_symbol_drops_frame() {
    // 0x3f is not in the symbol table; a locked PLL that decodes it drops
    // the frame.
    let mut pll = SoftwarePLL::new(8, false);
    let mut symbols = PREAMBLE.to_vec();
    symbols.push(0x3f);
    symbols.push(0x0d);
    feed(&mut pll, &waveform(&symbols, 8));
    assert!(!pll.active);
    assert!(!pll.full);
    assert_eq!(pll.bad, 1);
}

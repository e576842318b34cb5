use ask433::driver::{AskDriver, AskMode};

/// Runs a full transmission and records the TX line level at every tick:
/// the waveform a receiver sampling at the same rate would see.
fn transmit_waveform(driver: &mut AskDriver) -> Vec<bool> {
    let ticks = driver.tx_buf.len() * 6 * driver.ticks_per_bit as usize + 8;
    let mut wave = Vec::with_capacity(ticks);
    for _ in 0..ticks {
        driver.tick(false);
        wave.push(driver.tx_level);
    }
    wave
}

/// Feeds a recorded waveform into a driver in receive mode, with trailing
/// silence so the last bit periods complete.
fn receive_waveform(driver: &mut AskDriver, wave: &[bool]) {
    driver.set_mode_rx();
    for &s in wave {
        driver.tick(s);
    }
    for _ in 0..100 {
        driver.tick(false);
    }
}

#[test]
fn test_simulated_radio_send_and_receive() {
    let mut driver = AskDriver::new(8, None, None);
    let mut message = Vec::new();
    message.extend_from_slice(b"Hello, world!");
    let okay = driver.send(message.clone());
    assert!(okay, "Failed to send data");

    let ticks = driver.tx_buf.len() * 48 + 8;
    let mut wave = Vec::with_capacity(ticks);
    for _ in 0..ticks {
        driver.tick(false);
        wave.push(driver.tx_level);
    }

    assert_eq!(
        driver.tx_good, 1,
        "Transmit buffer should be empty after sending"
    );

    // Put the driver in a state to receive and play half the waveform back.
    driver.set_mode_rx();
    for &s in &wave[..ticks / 2] {
        driver.tick(s);
    }

    assert!(driver.pll.active, "PLL should be active during sending");

    for &s in &wave[ticks / 2..] {
        driver.tick(s);
    }
    for _ in 0..ticks {
        driver.tick(false);
    }

    let _ = driver.availabile();

    // Check if the driver received the message correctly
    let received = driver.receive();
    assert!(received.is_some(), "No data received");
    let received_data = received.unwrap();
    assert_eq!(
        received_data, message,
        "Received data does not match sent data"
    );
}

#[test]
fn test_loopback_between_two_drivers() {
    let mut sender = AskDriver::new(8, None, None);
    assert!(sender.send(b"Hello, world!".to_vec()));
    let wave = transmit_waveform(&mut sender);
    assert_eq!(sender.tx_good, 1);
    assert_eq!(sender.mode, AskMode::Idle);

    let mut receiver = AskDriver::new(8, None, None);
    receive_waveform(&mut receiver, &wave);
    assert!(receiver.availabile());
    assert_eq!(receiver.receive(), Some(b"Hello, world!".to_vec()));
    assert_eq!(receiver.rx_good, 1);
    assert_eq!(receiver.rx_bad, 0);
    // The packet is consumed: a second receive returns nothing.
    assert_eq!(receiver.receive(), None);
}

#[test]
fn test_crc_corruption_drops_packet() {
    // Flipping any single wire bit inside the payload region turns a valid
    // symbol into an out-of-table value: the frame is dropped and nothing
    // is delivered.
    // The first bit is emitted on the 8th tick (index 7); wire bit k
    // occupies samples 7 + 8k .. 7 + 8k + 8. The payload symbols start
    // after the 8 preamble symbols and the 10 symbols of count and headers.
    for bad_symbol in [18usize, 21, 30] {
        let mut sender = AskDriver::new(8, None, None);
        assert!(sender.send(b"Hello, world!".to_vec()));
        let mut wave = transmit_waveform(&mut sender);

        let bit = bad_symbol * 6 + 2;
        for i in (7 + 8 * bit)..(7 + 8 * bit + 8) {
            wave[i] = !wave[i];
        }

        let mut receiver = AskDriver::new(8, None, None);
        receive_waveform(&mut receiver, &wave);
        assert_eq!(receiver.receive(), None);
        assert_eq!(receiver.pll.bad, 1);
        assert_eq!(receiver.rx_good, 0);
    }
}

#[test]
fn test_corrupted_fcs_fails_crc_validation() {
    // Swapping one payload byte for another valid byte before the FCS is
    // computed over the original leaves every symbol valid but breaks the
    // checksum: the packet is dropped and rx_bad counts it.
    let mut sender = AskDriver::new(8, None, None);
    assert!(sender.send(b"Hi".to_vec()));
    // Replace the encoded 'H' (symbols at positions 18 and 19) with the
    // encoding of 'I' (0x49): high nibble 4 -> 0x16, low nibble 9 -> 0x25.
    sender.tx_buf[19] = 0x25;
    let wave = transmit_waveform(&mut sender);

    let mut receiver = AskDriver::new(8, None, None);
    receive_waveform(&mut receiver, &wave);
    assert_eq!(receiver.receive(), None);
    assert_eq!(receiver.rx_bad, 1);
    assert_eq!(receiver.rx_good, 0);
}

#[test]
fn test_address_filtering() {
    // this_address = 0x42, promiscuous = false: a packet to 0x41 is left
    // unread, packets to 0x42 or broadcast are delivered.
    for (to, delivered) in [(0x41u8, false), (0x42, true), (0xff, true)] {
        let mut sender = AskDriver::new(8, None, None);
        sender.tx_header_to = to;
        assert!(sender.send(b"Hi".to_vec()));
        let wave = transmit_waveform(&mut sender);

        let mut receiver = AskDriver::new(8, None, None);
        receiver.set_address(0x42);
        receive_waveform(&mut receiver, &wave);
        assert_eq!(receiver.availabile(), delivered);
        assert_eq!(receiver.rx_bad, 0);
        if delivered {
            assert_eq!(receiver.rx_good, 1);
            assert_eq!(receiver.rx_header_to, to);
            assert_eq!(receiver.receive(), Some(b"Hi".to_vec()));
        } else {
            assert_eq!(receiver.rx_good, 0);
            assert_eq!(receiver.receive(), None);
        }
    }
}

#[test]
fn test_promiscuous_mode_delivers_foreign_traffic() {
    let mut sender = AskDriver::new(8, None, None);
    sender.tx_header_to = 0x41;
    assert!(sender.send(b"Hi".to_vec()));
    let wave = transmit_waveform(&mut sender);

    let mut receiver = AskDriver::new(8, None, None);
    receiver.set_address(0x42);
    receiver.promiscuous = true;
    receive_waveform(&mut receiver, &wave);
    assert_eq!(receiver.receive(), Some(b"Hi".to_vec()));
    assert_eq!(receiver.rx_good, 1);
}

#[test]
fn test_second_packet_overwrites_unconsumed_first() {
    // There is no queue: a packet that completes before the previous one
    // is consumed overwrites the buffer, and the second is what is seen.
    let mut s1 = AskDriver::new(8, None, None);
    assert!(s1.send(b"first".to_vec()));
    let mut wave = transmit_waveform(&mut s1);
    let mut s2 = AskDriver::new(8, None, None);
    assert!(s2.send(b"second".to_vec()));
    wave.extend(transmit_waveform(&mut s2));

    let mut receiver = AskDriver::new(8, None, None);
    receive_waveform(&mut receiver, &wave);
    assert_eq!(receiver.rx_good, 2);
    assert_eq!(receiver.receive(), Some(b"second".to_vec()));
    assert_eq!(receiver.receive(), None);
}

#[test]
fn test_length_guard_no_delivery() {
    // A wire frame whose first decoded byte is 6 aborts silently: the
    // PLL counts one bad frame and no buffer is ever delivered.
    let symbols: [u8; 10] = [0x2a, 0x2a, 0x2a, 0x2a, 0x2a, 0x2a, 0x38, 0x2c, 0x0d, 0x1a];
    let mut wave = Vec::new();
    for &s in symbols.iter() {
        for j in 0..6 {
            for _ in 0..8 {
                wave.push((s >> j) & 1 == 1);
            }
        }
    }
    let mut receiver = AskDriver::new(8, None, None);
    receive_waveform(&mut receiver, &wave);
    assert_eq!(receiver.pll.bad, 1);
    assert_eq!(receiver.rx_good, 0);
    assert!(!receiver.availabile());
    assert_eq!(receiver.receive(), None);
}

use ask433::crc::{crc_ccitt_update, hi8, lo8};

fn crc_over(bytes: &[u8]) -> u16 {
    let mut crc: u16 = 0xffff;
    for b in bytes {
        crc = crc_ccitt_update(crc, b);
    }
    crc
}

#[test]
fn test_crc_known_value() {
    // The CCITT (XModem-style) byte-wise update, seeded with 0xFFFF, over
    // the classic check input.
    assert_eq!(crc_over(b"123456789"), 0x6f91);
}

#[test]
fn test_lo8_hi8() {
    assert_eq!(lo8(0xabcd), 0xcd);
    assert_eq!(hi8(0xabcd), 0xab);
}

#[test]
fn test_fcs_extension_reaches_residue() {
    // Running the update over [length, headers, payload] and then over the
    // one's complement of that running value, low byte first, must land on
    // the residue 0xF0B8.
    let packet = [9u8, 0xff, 0xff, 0x00, 0x00, 0x48, 0x69];
    let crc = crc_over(&packet);
    let fcs = !crc;
    let mut full = packet.to_vec();
    full.push((fcs & 0xff) as u8);
    full.push((fcs >> 8) as u8);
    assert_eq!(crc_over(&full), 0xf0b8);
}

#[test]
fn test_wrong_fcs_misses_residue() {
    let packet = [9u8, 0xff, 0xff, 0x00, 0x00, 0x48, 0x69];
    let crc = crc_over(&packet);
    let fcs = !crc;
    // Any corruption of either FCS byte must miss the residue.
    for flip in [0x01u8, 0x80, 0xff] {
        let mut full = packet.to_vec();
        full.push((fcs & 0xff) as u8 ^ flip);
        full.push((fcs >> 8) as u8);
        assert_ne!(crc_over(&full), 0xf0b8);

        let mut full2 = packet.to_vec();
        full2.push((fcs & 0xff) as u8);
        full2.push((fcs >> 8) as u8 ^ flip);
        assert_ne!(crc_over(&full2), 0xf0b8);
    }
}

#[test]
fn test_fcs_residue_for_every_seed_low_byte() {
    // The residue law holds whatever the running CRC was; sweep a slice of
    // the seed space.
    for lo in 0..=255u16 {
        let c = 0xab00 | lo;
        let fcs = !c;
        let r = crc_ccitt_update(crc_ccitt_update(c, &((fcs & 0xff) as u8)), &((fcs >> 8) as u8));
        assert_eq!(r, 0xf0b8);
    }
}

use ask433::encoding::{decode_6b4b, decode_buffer, encode_4b6b, encode_buffer};

#[test]
fn test_encode_4b6b_correct_output() {
    let encoded = encode_4b6b(0xAB); // 0xA = 10, 0xB = 11
    assert_eq!(encoded[0], 0x26);
    assert_eq!(encoded[1], 0x29);
}

#[test]
fn test_decode_6b4b_correct_output() {
    let decoded = decode_6b4b(&0b10101, &0b1101);
    assert_eq!(decoded, Some(0b110000));
}

#[test]
fn test_encode_buffer_correct_length_and_content() {
    let input = [0xAB, 0xCD];
    let output = encode_buffer(&input);
    assert_eq!(output.len(), 4);
    assert_eq!(output[0], 0x26);
    assert_eq!(output[1], 0x29);
    assert_eq!(output[2], 0x2a);
    assert_eq!(output[3], 0x2c);
}

#[test]
fn test_decode_buffer_successful() {
    let input = [0x26, 0x29];
    let output = decode_buffer(&input).expect("valid symbol pair");
    assert_eq!(output.len(), 1);
    assert_eq!(output[0], 0xAB);
}

#[test]
fn test_decode_buffer_odd_length_fails() {
    let input = [0x2a];
    let result = decode_buffer(&input);
    assert_eq!(result, None);
}

#[test]
fn test_decode_of_encode_is_identity_for_every_byte() {
    for b in 0..=255u8 {
        let pair = encode_4b6b(b);
        assert_eq!(decode_6b4b(&pair[0], &pair[1]), Some(b));
    }
}

#[test]
fn test_encode_buffer_then_decode_buffer_is_identity() {
    let empty: [u8; 0] = [];
    assert_eq!(decode_buffer(&encode_buffer(&empty)), Some(Vec::new()));
    let data: Vec<u8> = (0..=255u8).collect();
    assert_eq!(decode_buffer(&encode_buffer(&data)), Some(data.clone()));
    let hello = b"Hello, world!";
    assert_eq!(decode_buffer(&encode_buffer(hello)), Some(hello.to_vec()));
}

#[test]
fn test_every_symbol_has_exactly_three_set_bits() {
    for b in 0..=255u8 {
        let pair = encode_4b6b(b);
        assert_eq!(pair[0].count_ones(), 3);
        assert_eq!(pair[1].count_ones(), 3);
        assert!(pair[0] < 64 && pair[1] < 64);
    }
}

#[test]
fn test_decode_rejects_values_outside_the_table() {
    // 0x00 and 0x3f are balanced-looking extremes, 0x0c differs from a
    // symbol by one bit; none are in the table.
    for bad in [0x00u8, 0x0c, 0x1b, 0x3f] {
        assert_eq!(decode_6b4b(&bad, &0x0d), None);
        assert_eq!(decode_6b4b(&0x0d, &bad), None);
    }
}

#[test]
fn test_decode_buffer_fails_on_first_invalid_symbol() {
    let input = [0x26, 0x29, 0x00, 0x0d];
    assert_eq!(decode_buffer(&input), None);
}

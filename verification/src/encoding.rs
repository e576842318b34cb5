//! 4b6b symbol encoding and decoding for ASK/OOK message framing.
//!
//! Every 4-bit nibble is mapped to a 6-bit symbol with exactly three ones
//! and three zeros, taken from a fixed 16-entry table. The balance keeps the
//! on-air signal free of long runs and DC bias, which the receiver's timing
//! recovery depends on. Only 16 of the 64 possible 6-bit values are valid;
//! decoding any other value fails.

use vstd::prelude::*;

verus! {

/// The 4b6b symbol table: the balanced 6-bit codeword for each nibble.
pub open spec fn symbols_at(n: int) -> u8 {
    if n == 0 {
        0x0d
    } else if n == 1 {
        0x0e
    } else if n == 2 {
        0x13
    } else if n == 3 {
        0x15
    } else if n == 4 {
        0x16
    } else if n == 5 {
        0x19
    } else if n == 6 {
        0x1a
    } else if n == 7 {
        0x1c
    } else if n == 8 {
        0x23
    } else if n == 9 {
        0x25
    } else if n == 10 {
        0x26
    } else if n == 11 {
        0x29
    } else if n == 12 {
        0x2a
    } else if n == 13 {
        0x2c
    } else if n == 14 {
        0x32
    } else {
        0x34
    }
}

/// The symbol that encodes the nibble `n`.
pub open spec fn encode_nibble_spec(n: u8) -> u8 {
    symbols_at(n as int)
}

/// The high nibble of a byte.
pub open spec fn hi_nib(b: u8) -> u8 {
    (b / 16) as u8
}

/// The low nibble of a byte.
pub open spec fn lo_nib(b: u8) -> u8 {
    (b % 16) as u8
}

/// The reverse lookup: the nibble a 6-bit value encodes, if it is a symbol
/// of the table at all.
pub open spec fn decode_symbol_spec(s: u8) -> Option<u8> {
    if s == 0x0d {
        Some(0u8)
    } else if s == 0x0e {
        Some(1u8)
    } else if s == 0x13 {
        Some(2u8)
    } else if s == 0x15 {
        Some(3u8)
    } else if s == 0x16 {
        Some(4u8)
    } else if s == 0x19 {
        Some(5u8)
    } else if s == 0x1a {
        Some(6u8)
    } else if s == 0x1c {
        Some(7u8)
    } else if s == 0x23 {
        Some(8u8)
    } else if s == 0x25 {
        Some(9u8)
    } else if s == 0x26 {
        Some(10u8)
    } else if s == 0x29 {
        Some(11u8)
    } else if s == 0x2a {
        Some(12u8)
    } else if s == 0x2c {
        Some(13u8)
    } else if s == 0x32 {
        Some(14u8)
    } else if s == 0x34 {
        Some(15u8)
    } else {
        None
    }
}

/// Whether a 6-bit value is one of the 16 symbols of the table.
pub open spec fn is_symbol(s: u8) -> bool {
    decode_symbol_spec(s) is Some
}

/// The byte a pair of symbols decodes to: the first symbol carries the high
/// nibble, the second the low nibble. `None` if either is not a symbol.
pub open spec fn decode_pair_spec(hi6: u8, lo6: u8) -> Option<u8> {
    match (decode_symbol_spec(hi6), decode_symbol_spec(lo6)) {
        (Some(h), Some(l)) => Some((h * 16 + l) as u8),
        _ => None,
    }
}

/// The symbol stream that encodes a byte sequence: each byte becomes its
/// high-nibble symbol followed by its low-nibble symbol.
pub open spec fn encode_bytes_spec(s: Seq<u8>) -> Seq<u8> {
    Seq::new(
        2 * s.len(),
        |i: int|
            if i % 2 == 0 {
                encode_nibble_spec(hi_nib(s[i / 2]))
            } else {
                encode_nibble_spec(lo_nib(s[i / 2]))
            },
    )
}

/// Whether a symbol stream decodes cleanly: even length, every entry a
/// valid symbol.
pub open spec fn decode_buffer_ok(s: Seq<u8>) -> bool {
    &&& s.len() % 2 == 0
    &&& forall|i: int| 0 <= i < s.len() ==> is_symbol(#[trigger] s[i])
}

/// The value of one decoded symbol pair, with invalid symbols read as
/// nibble zero; meaningful only where both symbols are valid.
pub open spec fn decode_pair_val(hi6: u8, lo6: u8) -> u8 {
    match (decode_symbol_spec(hi6), decode_symbol_spec(lo6)) {
        (Some(h), Some(l)) => (h * 16 + l) as u8,
        _ => 0,
    }
}

/// The byte sequence a clean symbol stream decodes to.
pub open spec fn decode_bytes_spec(s: Seq<u8>) -> Seq<u8> {
    Seq::new(s.len() / 2, |i: int| decode_pair_val(s[2 * i], s[2 * i + 1]))
}

/// Looks the symbol for a nibble up in the 4b6b table.
pub(crate) fn symbol_for(n: u8) -> (r: u8)
    requires
        n < 16,
    ensures
        r == encode_nibble_spec(n),
{
    match n {
        0 => 0x0d,
        1 => 0x0e,
        2 => 0x13,
        3 => 0x15,
        4 => 0x16,
        5 => 0x19,
        6 => 0x1a,
        7 => 0x1c,
        8 => 0x23,
        9 => 0x25,
        10 => 0x26,
        11 => 0x29,
        12 => 0x2a,
        13 => 0x2c,
        14 => 0x32,
        _ => 0x34,
    }
}

/// Looks a 6-bit value up in the reverse table.
fn decode_symbol(s: u8) -> (r: Option<u8>)
    ensures
        r == decode_symbol_spec(s),
        r matches Some(v) ==> v < 16,
{
    match s {
        0x0d => Some(0),
        0x0e => Some(1),
        0x13 => Some(2),
        0x15 => Some(3),
        0x16 => Some(4),
        0x19 => Some(5),
        0x1a => Some(6),
        0x1c => Some(7),
        0x23 => Some(8),
        0x25 => Some(9),
        0x26 => Some(10),
        0x29 => Some(11),
        0x2a => Some(12),
        0x2c => Some(13),
        0x32 => Some(14),
        0x34 => Some(15),
        _ => None,
    }
}

/// Encodes an 8-bit byte into two 6-bit symbols, high nibble first.
pub fn encode_4b6b(byte: u8) -> (r: [u8; 2])
    ensures
        r@ == seq![encode_nibble_spec(hi_nib(byte)), encode_nibble_spec(lo_nib(byte))],
{
    let high = byte >> 4;
    let low = byte & 0x0f;
    proof {
        assert(byte >> 4 == byte / 16 && byte & 0x0f == byte % 16) by (bit_vector);
    }
    let r = [symbol_for(high), symbol_for(low)];
    proof {
        assert(r@ =~= seq![encode_nibble_spec(hi_nib(byte)), encode_nibble_spec(lo_nib(byte))]);
    }
    r
}

/// Decodes two 6-bit symbols back into the original byte, the first symbol
/// giving the high nibble. Fails if either value is not in the table.
pub fn decode_6b4b(symbol1: &u8, symbol2: &u8) -> (r: Option<u8>)
    ensures
        r == decode_pair_spec(*symbol1, *symbol2),
{
    match (decode_symbol(*symbol1), decode_symbol(*symbol2)) {
        (Some(h), Some(l)) => {
            proof {
                assert(h < 16 && l < 16 ==> (h << 4) | l == (h * 16 + l) as u8) by (bit_vector);
            }
            Some((h << 4) | l)
        },
        _ => None,
    }
}

/// Encodes a byte slice into its 4b6b symbol stream, two symbols per byte.
pub fn encode_buffer(input: &[u8]) -> (r: Vec<u8>)
    ensures
        r@ == encode_bytes_spec(input@),
{
    let mut output: Vec<u8> = Vec::new();
    let mut i: usize = 0;
    while i < input.len()
        invariant
            i <= input.len(),
            output@.len() == 2 * i,
            forall|j: int| 0 <= j < 2 * i ==> output@[j] == encode_bytes_spec(input@)[j],
        decreases input.len() - i,
    {
        let pair = encode_4b6b(input[i]);
        output.push(pair[0]);
        output.push(pair[1]);
        i = i + 1;
    }
    proof {
        assert(output@ =~= encode_bytes_spec(input@));
    }
    output
}

/// Decodes a 4b6b symbol stream back into bytes. Fails on an odd-length
/// input or on the first value that is not a symbol of the table.
pub fn decode_buffer(input: &[u8]) -> (r: Option<Vec<u8>>)
    ensures
        match r {
            Some(v) => decode_buffer_ok(input@) && v@ == decode_bytes_spec(input@),
            None => !decode_buffer_ok(input@),
        },
{
    if input.len() % 2 != 0 {
        return None;
    }
    let mut output: Vec<u8> = Vec::new();
    let mut i: usize = 0;
    while i < input.len()
        invariant
            i % 2 == 0,
            i <= input.len(),
            input@.len() % 2 == 0,
            forall|j: int| 0 <= j < i ==> is_symbol(#[trigger] input@[j]),
            output@.len() == i / 2,
            forall|j: int| 0 <= j < i / 2 ==> output@[j] == decode_bytes_spec(input@)[j],
        decreases input.len() - i,
    {
        match decode_6b4b(&input[i], &input[i + 1]) {
            Some(b) => {
                output.push(b);
                i = i + 2;
            },
            None => {
                return None;
            },
        }
    }
    proof {
        assert(output@ =~= decode_bytes_spec(input@));
    }
    Some(output)
}

/// Decoding the symbol of a nibble gives the nibble back.
pub proof fn lemma_nibble_roundtrip(n: u8)
    requires
        n < 16,
    ensures
        decode_symbol_spec(encode_nibble_spec(n)) == Some(n),
{
}

/// Law of the codec: for every byte, decoding the symbol pair produced by
/// `encode_4b6b` yields that byte again.
pub proof fn lemma_decode_pair_of_encode(b: u8)
    ensures
        decode_pair_spec(encode_nibble_spec(hi_nib(b)), encode_nibble_spec(lo_nib(b))) == Some(b),
{
    lemma_nibble_roundtrip(hi_nib(b));
    lemma_nibble_roundtrip(lo_nib(b));
}

/// Law of the codec on buffers: `decode_buffer` is a left inverse of
/// `encode_buffer` on every byte sequence.
pub proof fn lemma_encode_then_decode(s: Seq<u8>)
    ensures
        decode_buffer_ok(encode_bytes_spec(s)),
        decode_bytes_spec(encode_bytes_spec(s)) == s,
{
    let e = encode_bytes_spec(s);
    assert forall|i: int| 0 <= i < e.len() implies is_symbol(#[trigger] e[i]) by {
        let b = s[i / 2];
        if i % 2 == 0 {
            lemma_nibble_roundtrip(hi_nib(b));
        } else {
            lemma_nibble_roundtrip(lo_nib(b));
        }
    }
    assert forall|i: int| 0 <= i < s.len() implies decode_bytes_spec(e)[i] == s[i] by {
        assert(e[2 * i] == encode_nibble_spec(hi_nib(s[i])));
        assert(e[2 * i + 1] == encode_nibble_spec(lo_nib(s[i])));
        lemma_decode_pair_of_encode(s[i]);
    }
    assert(decode_bytes_spec(e) =~= s);
}

/// Law of rejection: a value outside the symbol table fails every pair
/// decode it takes part in, in either position.
pub proof fn lemma_decode_pair_invalid(s: u8, t: u8)
    requires
        !is_symbol(s),
    ensures
        decode_pair_spec(s, t) is None,
        decode_pair_spec(t, s) is None,
{
}

/// Encoding one more byte appends exactly its two symbols to the stream.
pub proof fn lemma_encode_bytes_push(s: Seq<u8>, b: u8)
    ensures
        encode_bytes_spec(s.push(b)) == encode_bytes_spec(s) + seq![
            encode_nibble_spec(hi_nib(b)),
            encode_nibble_spec(lo_nib(b)),
        ],
{
    let lhs = encode_bytes_spec(s.push(b));
    let rhs = encode_bytes_spec(s) + seq![encode_nibble_spec(hi_nib(b)), encode_nibble_spec(lo_nib(b))];
    assert forall|i: int| 0 <= i < lhs.len() implies lhs[i] == rhs[i] by {
        if i < 2 * s.len() {
            assert(s.push(b)[i / 2] == s[i / 2]);
        } else {
            assert(s.push(b)[i / 2] == b);
        }
    }
    assert(lhs =~= rhs);
}

/// The number of set bits among the low six bits of a byte.
pub open spec fn ones6(s: u8) -> int {
    (s as int) % 2 + (s as int / 2) % 2 + (s as int / 4) % 2 + (s as int / 8) % 2 + (s as int / 16)
        % 2 + (s as int / 32) % 2
}

/// Law of DC balance: both symbols of every encoded byte carry exactly
/// three set bits.
pub proof fn lemma_encoded_symbols_balanced(b: u8)
    ensures
        ones6(encode_nibble_spec(hi_nib(b))) == 3,
        ones6(encode_nibble_spec(lo_nib(b))) == 3,
{
}

} // verus!

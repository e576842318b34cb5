//! Incremental CRC-CCITT (XModem variant) checksum.
//!
//! The running checksum is seeded with `0xFFFF` and updated one byte at a
//! time. The transmitter appends the one's complement of the running value
//! (low byte first); a receiver that keeps feeding the received bytes,
//! trailer included, through the same update ends at the residue `0xF0B8`.

use vstd::prelude::*;

verus! {

/// One step of the byte-wise CRC-CCITT update, as a mathematical function.
pub open spec fn crc_update_spec(crc: u16, byte: u8) -> u16 {
    let d0 = (byte as u16) ^ (crc & 0xff);
    let d = ((d0 ^ (d0 << 4)) as u8) as u16;
    ((d << 8) | (crc >> 8)) ^ ((d >> 4) as u8 as u16) ^ (d << 3)
}

/// The running CRC after absorbing every byte of `s` in order, starting
/// from the accumulator `acc`.
pub open spec fn crc_seq(s: Seq<u8>, acc: u16) -> u16
    decreases s.len(),
{
    if s.len() == 0 {
        acc
    } else {
        crc_seq(s.drop_first(), crc_update_spec(acc, s[0]))
    }
}

/// The low byte of a 16-bit word, widened back to 16 bits.
pub fn lo8(x: u16) -> (r: u16)
    ensures
        r == x & 0xff,
{
    x & 0xff
}

/// The high byte of a 16-bit word.
pub fn hi8(x: u16) -> (r: u16)
    ensures
        r == x >> 8,
{
    x >> 8
}

/// Advances the running CRC-CCITT value by one data byte.
pub fn crc_ccitt_update(crc: u16, data: &u8) -> (r: u16)
    ensures
        r == crc_update_spec(crc, *data),
{
    let mut d: u16 = *data as u16;
    d = d ^ lo8(crc);
    d = d ^ (d << 4);
    d = (#[verifier::truncate] (d as u8)) as u16;
    ((d << 8) | hi8(crc)) ^ ((#[verifier::truncate] ((d >> 4) as u8)) as u16) ^ (d << 3)
}

/// Absorbing one more byte after a prefix is the same as updating the CRC of
/// the prefix with that byte.
pub proof fn lemma_crc_seq_push(s: Seq<u8>, acc: u16, b: u8)
    ensures
        crc_seq(s.push(b), acc) == crc_update_spec(crc_seq(s, acc), b),
    decreases s.len(),
{
    if s.len() == 0 {
        assert(s.push(b)[0] == b);
        assert(s.push(b).drop_first() =~= Seq::<u8>::empty());
        assert(crc_seq(s.push(b), acc) == crc_seq(Seq::<u8>::empty(), crc_update_spec(acc, b)));
    } else {
        assert(s.push(b)[0] == s[0]);
        assert(s.push(b).drop_first() =~= s.drop_first().push(b));
        lemma_crc_seq_push(s.drop_first(), crc_update_spec(acc, s[0]), b);
        assert(crc_seq(s.push(b), acc) == crc_seq(
            s.drop_first().push(b),
            crc_update_spec(acc, s[0]),
        ));
        assert(crc_seq(s, acc) == crc_seq(s.drop_first(), crc_update_spec(acc, s[0])));
    }
}

/// The CRC of a concatenation is the CRC of the tail computed from the CRC
/// of the head.
pub proof fn lemma_crc_seq_append(s1: Seq<u8>, s2: Seq<u8>, acc: u16)
    ensures
        crc_seq(s1 + s2, acc) == crc_seq(s2, crc_seq(s1, acc)),
    decreases s1.len(),
{
    if s1.len() == 0 {
        assert(s1 + s2 =~= s2);
    } else {
        assert((s1 + s2).drop_first() =~= s1.drop_first() + s2);
        lemma_crc_seq_append(s1.drop_first(), s2, crc_update_spec(acc, s1[0]));
    }
}

/// The CRC of a two-byte sequence, written out.
pub proof fn lemma_crc_seq_two(acc: u16, b1: u8, b2: u8)
    ensures
        crc_seq(seq![b1, b2], acc) == crc_update_spec(crc_update_spec(acc, b1), b2),
{
    let s = seq![b1, b2];
    let s1 = s.drop_first();
    assert(s1.len() == 1 && s1[0] == b2);
    let s2 = s1.drop_first();
    assert(s2.len() == 0);
    assert(crc_seq(s2, crc_update_spec(crc_update_spec(acc, b1), b2)) == crc_update_spec(
        crc_update_spec(acc, b1),
        b2,
    ));
    assert(crc_seq(s1, crc_update_spec(acc, b1)) == crc_seq(s2, crc_update_spec(
        crc_update_spec(acc, b1),
        b2,
    )));
}

/// Law of the frame check sequence: extending a running CRC `c` by two more
/// bytes reaches the residue `0xF0B8` exactly when those bytes are the low
/// and high byte, in that order, of the one's complement of `c`.
pub proof fn lemma_crc_fcs_residue(c: u16, fcs_lo: u8, fcs_hi: u8)
    ensures
        crc_update_spec(crc_update_spec(c, fcs_lo), fcs_hi) == 0xf0b8 <==> (fcs_lo == (!c & 0xff)
            as u8 && fcs_hi == ((!c >> 8) as u8)),
{
    assert(crc_update_spec(crc_update_spec(c, fcs_lo), fcs_hi) == 0xf0b8 <==> (fcs_lo == (!c
        & 0xff) as u8 && fcs_hi == ((!c >> 8) as u8))) by (bit_vector);
}

} // verus!

//! The CRC16-XMODEM checksum that protects textual keys.

use vstd::prelude::*;

verus! {

/// One step of the polynomial division: the register moves left by one bit
/// and the generator `x^16 + x^12 + x^5 + 1` is subtracted when a bit falls out.
pub open spec fn crc_shift(crc: u16) -> u16 {
    if crc & 0x8000 != 0 {
        (crc << 1) ^ 0x1021
    } else {
        crc << 1
    }
}

/// The register after one more byte of the message has been divided.
pub open spec fn crc_byte(crc: u16, byte: u8) -> u16 {
    crc_shift(
        crc_shift(
            crc_shift(
                crc_shift(
                    crc_shift(crc_shift(crc_shift(crc_shift(crc ^ ((byte as u16) << 8))))),
                ),
            ),
        ),
    )
}

/// CRC16-XMODEM of `data`: generator 0x1021, initial register 0, no
/// reflection and no final inversion.
pub open spec fn crc16(data: Seq<u8>) -> u16
    decreases data.len(),
{
    if data.len() == 0 {
        0
    } else {
        crc_byte(crc16(data.drop_last()), data.last())
    }
}

fn shift(crc: u16) -> (r: u16)
    ensures
        r == crc_shift(crc),
{
    if crc & 0x8000 != 0 {
        (crc << 1) ^ 0x1021
    } else {
        crc << 1
    }
}

fn update(crc: u16, byte: u8) -> (r: u16)
    ensures
        r == crc_byte(crc, byte),
{
    let mut state: u16 = crc ^ ((byte as u16) << 8);
    state = shift(state);
    state = shift(state);
    state = shift(state);
    state = shift(state);
    state = shift(state);
    state = shift(state);
    state = shift(state);
    state = shift(state);
    state
}

/// Computes the CRC16-XMODEM checksum of `data`.
pub fn checksum(data: &[u8]) -> (r: u16)
    ensures
        r == crc16(data@),
{
    let mut crc: u16 = 0;
    let mut i: usize = 0;
    while i < data.len()
        invariant
            i <= data.len(),
            crc == crc16(data@.take(i as int)),
        decreases data.len() - i,
    {
        assert(data@.take(i + 1).drop_last() =~= data@.take(i as int));
        crc = update(crc, data[i]);
        i += 1;
    }
    assert(data@.take(i as int) =~= data@);
    crc
}

/// `data` with bit `bit` of the byte at `index` inverted.
pub open spec fn flip_bit(data: Seq<u8>, index: int, bit: u8) -> Seq<u8> {
    data.update(index, data[index] ^ (1u8 << bit))
}

proof fn lemma_crc_byte_linear(a: u16, b: u16, x: u8, y: u8)
    ensures
        crc_byte(a ^ b, x ^ y) == crc_byte(a, x) ^ crc_byte(b, y),
{
    assert(crc_byte(a ^ b, x ^ y) == crc_byte(a, x) ^ crc_byte(b, y)) by (bit_vector);
}

proof fn lemma_crc_byte_keeps_difference(a: u16, b: u16, x: u8)
    requires
        a != b,
    ensures
        crc_byte(a, x) != crc_byte(b, x),
{
    assert(a != b ==> crc_byte(a, x) != crc_byte(b, x)) by (bit_vector);
}

proof fn lemma_crc_byte_sees_bit(a: u16, x: u8, bit: u8)
    requires
        bit < 8,
    ensures
        crc_byte(a, x ^ (1u8 << bit)) != crc_byte(a, x),
{
    assert(bit < 8 ==> crc_byte(a, x ^ (1u8 << bit)) != crc_byte(a, x)) by (bit_vector);
}

proof fn lemma_crc_prefix_flip(data: Seq<u8>, index: int, bit: u8, upto: int)
    requires
        0 <= index < data.len(),
        bit < 8,
        0 <= upto <= data.len(),
    ensures
        upto <= index ==> crc16(flip_bit(data, index, bit).take(upto)) == crc16(data.take(upto)),
        upto > index ==> crc16(flip_bit(data, index, bit).take(upto)) != crc16(data.take(upto)),
    decreases upto,
{
    let flipped = flip_bit(data, index, bit);
    if upto > 0 {
        lemma_crc_prefix_flip(data, index, bit, upto - 1);
        assert(flipped.take(upto).drop_last() =~= flipped.take(upto - 1));
        assert(data.take(upto).drop_last() =~= data.take(upto - 1));
        let before_flipped = crc16(flipped.take(upto - 1));
        let before = crc16(data.take(upto - 1));
        if upto - 1 == index {
            lemma_crc_byte_sees_bit(before, data[index], bit);
        } else if upto - 1 > index {
            lemma_crc_byte_keeps_difference(before_flipped, before, data[upto - 1]);
        }
    } else {
        assert(flipped.take(0) =~= data.take(0));
    }
}

/// Inverting any single bit of a message changes its checksum.
pub proof fn lemma_crc_detects_bit_flip(data: Seq<u8>, index: int, bit: u8)
    requires
        0 <= index < data.len(),
        bit < 8,
    ensures
        crc16(flip_bit(data, index, bit)) != crc16(data),
{
    lemma_crc_prefix_flip(data, index, bit, data.len() as int);
    assert(flip_bit(data, index, bit).take(data.len() as int) =~= flip_bit(data, index, bit));
    assert(data.take(data.len() as int) =~= data);
}

} // verus!

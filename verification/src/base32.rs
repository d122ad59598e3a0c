//! Unpadded base32 text over the alphabet `A`-`Z`, `2`-`7`.
//!
//! The encoding is described arithmetically: the bytes are read as one big
//! number, zero bits are appended until the bit count is a multiple of five,
//! and the text is that number written in base 32.

use crate::error::StellarSdkError;
use vstd::arithmetic::div_mod::{
    lemma_div_multiples_vanish, lemma_fundamental_div_mod, lemma_mod_bound,
};
use vstd::arithmetic::power2::{lemma2_to64, lemma_pow2_adds, lemma_pow2_pos, pow2};
use vstd::bits::{lemma_u32_shl_is_mul, lemma_u32_shr_is_div};
use vstd::prelude::*;

verus! {

/// The number that `data` denotes when read as big-endian base-256 digits.
pub open spec fn bytes_value(data: Seq<u8>) -> nat
    decreases data.len(),
{
    if data.len() == 0 {
        0
    } else {
        bytes_value(data.drop_last()) * 256 + data.last() as nat
    }
}

/// The `count` lowest base-256 digits of `value`, most significant first.
pub open spec fn value_bytes(value: nat, count: nat) -> Seq<u8>
    decreases count,
{
    if count == 0 {
        Seq::empty()
    } else {
        value_bytes(value / 256, (count - 1) as nat).push((value % 256) as u8)
    }
}

/// The number that `digits` denotes when read as big-endian base-32 digits.
pub open spec fn digits_value(digits: Seq<u8>) -> nat
    decreases digits.len(),
{
    if digits.len() == 0 {
        0
    } else {
        digits_value(digits.drop_last()) * 32 + digits.last() as nat
    }
}

/// The `count` lowest base-32 digits of `value`, most significant first.
pub open spec fn value_digits(value: nat, count: nat) -> Seq<u8>
    decreases count,
{
    if count == 0 {
        Seq::empty()
    } else {
        value_digits(value / 32, (count - 1) as nat).push((value % 32) as u8)
    }
}

/// The character that stands for the digit `digit`.
pub open spec fn symbol(digit: u8) -> u8 {
    if digit < 26 {
        (digit + 65) as u8
    } else {
        (digit + 24) as u8
    }
}

/// Whether `character` belongs to the alphabet.
pub open spec fn is_symbol(character: u8) -> bool {
    (65 <= character <= 90) || (50 <= character <= 55)
}

/// The digit that `character` stands for.
pub open spec fn symbol_digit(character: u8) -> u8 {
    if character >= 65 {
        (character - 65) as u8
    } else {
        (character - 24) as u8
    }
}

/// Whether every character of `text` belongs to the alphabet.
pub open spec fn all_symbols(text: Seq<u8>) -> bool {
    forall|i: int| 0 <= i < text.len() ==> is_symbol(#[trigger] text[i])
}

/// Whether every element of `digits` is below 32.
pub open spec fn all_digits(digits: Seq<u8>) -> bool {
    forall|i: int| 0 <= i < digits.len() ==> #[trigger] digits[i] < 32
}

/// The characters that stand for `digits`.
pub open spec fn symbols_of(digits: Seq<u8>) -> Seq<u8> {
    Seq::new(digits.len(), |i: int| symbol(digits[i]))
}

/// The digits that the characters of `text` stand for.
pub open spec fn digits_of(text: Seq<u8>) -> Seq<u8> {
    Seq::new(text.len(), |i: int| symbol_digit(text[i]))
}

/// The number of characters that encode `length` bytes.
pub open spec fn encoded_length(length: nat) -> nat {
    ((8 * length + 4) / 5) as nat
}

/// The base32 text of `data`.
pub open spec fn base32_encoding(data: Seq<u8>) -> Seq<u8> {
    let count = encoded_length(data.len());
    let spare = (5 * count - 8 * data.len()) as nat;
    symbols_of(value_digits(bytes_value(data) * pow2(spare), count))
}

/// The bytes that a text over the alphabet decodes to: its bits in groups of
/// eight, an incomplete last group dropped.
pub open spec fn base32_decoding(text: Seq<u8>) -> Seq<u8> {
    let count = ((5 * text.len()) / 8) as nat;
    let spare = (5 * text.len() - 8 * count) as nat;
    value_bytes(digits_value(digits_of(text)) / pow2(spare), count)
}

/// Whether `text` is exactly what its own decoding encodes to.
pub open spec fn is_canonical(text: Seq<u8>) -> bool {
    base32_encoding(base32_decoding(text)) == text
}

proof fn lemma_value_digits_len(value: nat, count: nat)
    ensures
        value_digits(value, count).len() == count,
        all_digits(value_digits(value, count)),
    decreases count,
{
    if count > 0 {
        lemma_value_digits_len(value / 32, (count - 1) as nat);
    }
}

proof fn lemma_value_bytes_len(value: nat, count: nat)
    ensures
        value_bytes(value, count).len() == count,
    decreases count,
{
    if count > 0 {
        lemma_value_bytes_len(value / 256, (count - 1) as nat);
    }
}

proof fn lemma_digits_of_their_value(digits: Seq<u8>)
    requires
        all_digits(digits),
    ensures
        value_digits(digits_value(digits), digits.len()) == digits,
    decreases digits.len(),
{
    if digits.len() > 0 {
        let front = digits.drop_last();
        lemma_digits_of_their_value(front);
        let value = digits_value(digits);
        assert(digits.last() < 32);
        assert(value / 32 == digits_value(front));
        assert(value % 32 == digits.last());
        assert(value_digits(value, digits.len()) =~= digits);
    } else {
        assert(value_digits(digits_value(digits), digits.len()) =~= digits);
    }
}

proof fn lemma_bytes_of_their_value(data: Seq<u8>)
    ensures
        value_bytes(bytes_value(data), data.len()) == data,
    decreases data.len(),
{
    if data.len() > 0 {
        let front = data.drop_last();
        lemma_bytes_of_their_value(front);
        let value = bytes_value(data);
        assert(value / 256 == bytes_value(front));
        assert(value % 256 == data.last());
        assert(value_bytes(value, data.len()) =~= data);
    } else {
        assert(value_bytes(bytes_value(data), data.len()) =~= data);
    }
}

proof fn lemma_value_of_its_digits(value: nat, count: nat)
    requires
        value < pow2(5 * count),
    ensures
        digits_value(value_digits(value, count)) == value,
    decreases count,
{
    lemma2_to64();
    if count > 0 {
        let rest = (count - 1) as nat;
        lemma_pow2_adds(5 * rest, 5);
        assert(value / 32 < pow2(5 * rest));
        lemma_value_of_its_digits(value / 32, rest);
        let digits = value_digits(value, count);
        assert(digits.drop_last() =~= value_digits(value / 32, rest));
    }
}

proof fn lemma_bytes_value_bound(data: Seq<u8>)
    ensures
        bytes_value(data) < pow2(8 * data.len()),
    decreases data.len(),
{
    lemma2_to64();
    if data.len() > 0 {
        lemma_bytes_value_bound(data.drop_last());
        lemma_pow2_adds(8 * (data.len() - 1) as nat, 8);
    }
}

/// Encoding loses nothing: the text uses only the alphabet, and decoding it
/// gives the bytes back.
pub proof fn lemma_decoding_of_encoding(data: Seq<u8>)
    ensures
        all_symbols(base32_encoding(data)),
        base32_encoding(data).len() == encoded_length(data.len()),
        base32_decoding(base32_encoding(data)) == data,
{
    let count = encoded_length(data.len());
    let spare = (5 * count - 8 * data.len()) as nat;
    let scaled = bytes_value(data) * pow2(spare);
    let digits = value_digits(scaled, count);
    let text = base32_encoding(data);
    lemma_value_digits_len(scaled, count);
    assert(all_symbols(text)) by {
        assert forall|i: int| 0 <= i < text.len() implies is_symbol(#[trigger] text[i]) by {
            assert(digits[i] < 32);
        }
    }
    assert(digits_of(text) =~= digits) by {
        assert forall|i: int| 0 <= i < digits.len() implies digits_of(text)[i] == digits[i] by {
            assert(digits[i] < 32);
        }
    }
    lemma_bytes_value_bound(data);
    lemma_pow2_adds(8 * data.len(), spare);
    lemma_pow2_pos(spare);
    assert(scaled < pow2(5 * count)) by (nonlinear_arith)
        requires
            scaled == bytes_value(data) * pow2(spare),
            bytes_value(data) < pow2(8 * data.len()),
            pow2(8 * data.len()) * pow2(spare) == pow2(5 * count),
            pow2(spare) > 0,
    ;
    lemma_value_of_its_digits(scaled, count);
    assert((5 * text.len()) / 8 == data.len());
    lemma_div_multiples_vanish(bytes_value(data) as int, pow2(spare) as int);
    assert(scaled / pow2(spare) == bytes_value(data)) by {
        assert(scaled == pow2(spare) * bytes_value(data)) by (nonlinear_arith)
            requires
                scaled == bytes_value(data) * pow2(spare),
        ;
    }
    lemma_bytes_of_their_value(data);
}

/// Two byte strings with the same text are the same.
pub proof fn lemma_encoding_is_injective(first: Seq<u8>, second: Seq<u8>)
    requires
        base32_encoding(first) == base32_encoding(second),
    ensures
        first == second,
{
    lemma_decoding_of_encoding(first);
    lemma_decoding_of_encoding(second);
}

fn symbol_for(digit: u8) -> (r: u8)
    requires
        digit < 32,
    ensures
        r == symbol(digit),
{
    if digit < 26 {
        digit + 65
    } else {
        digit + 24
    }
}

/// Splits `value` into the part above its `low` lowest bits and those bits.
fn split_bits(value: u32, low: u32) -> (r: (u32, u32))
    requires
        low <= 12,
    ensures
        r.0 == value as nat / pow2(low as nat),
        r.1 == value as nat % pow2(low as nat),
        value == r.0 * pow2(low as nat) + r.1,
        r.1 < pow2(low as nat),
{
    proof {
        lemma2_to64();
        lemma_pow2_pos(low as nat);
        assert(pow2(low as nat) <= 4096) by {
            if low < 12 {
                vstd::arithmetic::power2::lemma_pow2_strictly_increases(low as nat, 12);
            }
        }
        lemma_u32_shl_is_mul(1, low);
        lemma_u32_shr_is_div(value, low);
        lemma_fundamental_div_mod(value as int, pow2(low as nat) as int);
        lemma_mod_bound(value as int, pow2(low as nat) as int);
        assert(pow2(low as nat) * (value as nat / pow2(low as nat)) == (value as nat / pow2(
            low as nat,
        )) * pow2(low as nat)) by (nonlinear_arith);
    }
    let unit: u32 = 1u32 << low;
    (value >> low, value % unit)
}

proof fn lemma_append_bits(high: nat, bits: nat, low: nat, more: nat, added: nat)
    ensures
        (high * pow2(bits) + low) * pow2(more) + added == high * pow2(bits + more) + (low * pow2(
            more,
        ) + added),
{
    lemma_pow2_adds(bits, more);
    assert((high * pow2(bits) + low) * pow2(more) == high * (pow2(bits) * pow2(more)) + low * pow2(
        more,
    )) by (nonlinear_arith);
}

proof fn lemma_move_bits(high: nat, bits: nat, taken: nat, digit: nat, rest: nat)
    requires
        taken <= bits,
    ensures
        high * pow2(bits) + (digit * pow2((bits - taken) as nat) + rest) == (high * pow2(taken)
            + digit) * pow2((bits - taken) as nat) + rest,
{
    lemma_pow2_adds(taken, (bits - taken) as nat);
    assert((high * pow2(taken) + digit) * pow2((bits - taken) as nat) == high * (pow2(taken) * pow2(
        (bits - taken) as nat,
    )) + digit * pow2((bits - taken) as nat)) by (nonlinear_arith);
}

proof fn lemma_digit_bound(value: nat, digit: nat, rest: nat, width: nat, bits: nat)
    requires
        value == digit * pow2((bits - width) as nat) + rest,
        value < pow2(bits),
        width <= bits,
    ensures
        digit < pow2(width),
{
    lemma_pow2_adds(width, (bits - width) as nat);
    lemma_pow2_pos((bits - width) as nat);
    let scale = pow2((bits - width) as nat);
    let limit = pow2(width);
    assert(digit < limit) by (nonlinear_arith)
        requires
            digit * scale + rest < limit * scale,
            scale > 0,
    ;
}

/// Encodes `data` as base32 text.
pub fn encode(data: &[u8]) -> (r: Vec<u8>)
    ensures
        r@ == base32_encoding(data@),
{
    let mut out: Vec<u8> = Vec::new();
    let mut buffer: u32 = 0;
    let mut bits: u32 = 0;
    let ghost mut digits: Seq<u8> = Seq::empty();
    let mut i: usize = 0;
    proof {
        lemma2_to64();
    }
    while i < data.len()
        invariant
            i <= data.len(),
            bits < 5,
            buffer < pow2(bits as nat),
            all_digits(digits),
            out@ == symbols_of(digits),
            digits_value(digits) * pow2(bits as nat) + buffer == bytes_value(data@.take(i as int)),
            5 * digits.len() + bits == 8 * i,
        decreases data.len() - i,
    {
        proof {
            lemma2_to64();
            assert(data@.take(i + 1).drop_last() =~= data@.take(i as int));
            lemma_append_bits(
                digits_value(digits),
                bits as nat,
                buffer as nat,
                8,
                data[i as int] as nat,
            );
            lemma_pow2_adds(bits as nat, 8);
            assert(buffer * 256 + data[i as int] < pow2((bits + 8) as nat)) by (nonlinear_arith)
                requires
                    buffer < pow2(bits as nat),
                    data[i as int] < 256,
                    pow2(bits as nat) * 256 == pow2((bits + 8) as nat),
            ;
            assert(pow2((bits + 8) as nat) <= 4096) by {
                if bits < 4 {
                    vstd::arithmetic::power2::lemma_pow2_strictly_increases((bits + 8) as nat, 12);
                }
            }
        }
        buffer = buffer * 256 + data[i] as u32;
        bits = bits + 8;
        i += 1;
        while bits >= 5
            invariant
                i <= data.len(),
                bits <= 12,
                buffer < pow2(bits as nat),
                all_digits(digits),
                out@ == symbols_of(digits),
                digits_value(digits) * pow2(bits as nat) + buffer == bytes_value(
                    data@.take(i as int),
                ),
                5 * digits.len() + bits == 8 * i,
            decreases bits,
        {
            let (digit, rest) = split_bits(buffer, bits - 5);
            proof {
                lemma2_to64();
                lemma_digit_bound(buffer as nat, digit as nat, rest as nat, 5, bits as nat);
                lemma_move_bits(digits_value(digits), bits as nat, 5, digit as nat, rest as nat);
                let longer = digits.push(digit as u8);
                assert(longer.drop_last() =~= digits);
                assert(symbols_of(longer) =~= symbols_of(digits).push(symbol(digit as u8)));
                digits = longer;
            }
            out.push(symbol_for(digit as u8));
            buffer = rest;
            bits = bits - 5;
        }
    }
    proof {
        assert(data@.take(i as int) =~= data@);
    }
    if bits > 0 {
        let unit: u32 = 1u32 << (5 - bits);
        proof {
            lemma2_to64();
            lemma_u32_shl_is_mul(1, (5 - bits) as u32);
            lemma_pow2_adds(bits as nat, (5 - bits) as nat);
            assert(buffer * pow2((5 - bits) as nat) < 32) by (nonlinear_arith)
                requires
                    buffer < pow2(bits as nat),
                    pow2(bits as nat) * pow2((5 - bits) as nat) == 32,
            ;
        }
        let digit: u32 = buffer * unit;
        proof {
            let longer = digits.push(digit as u8);
            assert(longer.drop_last() =~= digits);
            assert(symbols_of(longer) =~= symbols_of(digits).push(symbol(digit as u8)));
            assert(digits_value(longer) == bytes_value(data@) * pow2((5 - bits) as nat))
                by (nonlinear_arith)
                requires
                    digits_value(longer) == digits_value(digits) * 32 + buffer * pow2(
                        (5 - bits) as nat,
                    ),
                    digits_value(digits) * pow2(bits as nat) + buffer == bytes_value(data@),
                    pow2(bits as nat) * pow2((5 - bits) as nat) == 32,
            ;
            digits = longer;
        }
        out.push(symbol_for(digit as u8));
    } else {
        proof {
            assert(digits_value(digits) == bytes_value(data@) * pow2(0)) by (nonlinear_arith)
                requires
                    digits_value(digits) * pow2(0) + 0 == bytes_value(data@),
                    pow2(0) == 1,
            ;
        }
    }
    proof {
        lemma_digits_of_their_value(digits);
    }
    out
}

/// Decodes base32 text. Fails at the first character outside the alphabet;
/// bits that do not fill a byte at the end are dropped.
pub fn decode(text: &[u8]) -> (r: Result<Vec<u8>, StellarSdkError>)
    ensures
        match r {
            Ok(bytes) => all_symbols(text@) && bytes@ == base32_decoding(text@),
            Err(StellarSdkError::InvalidBase32Character { at_position }) => {
                &&& at_position < text@.len()
                &&& !is_symbol(text@[at_position as int])
                &&& all_symbols(text@.take(at_position as int))
            },
            Err(_) => false,
        },
{
    let mut out: Vec<u8> = Vec::new();
    let mut buffer: u32 = 0;
    let mut bits: u32 = 0;
    let ghost mut bytes: Seq<u8> = Seq::empty();
    let mut i: usize = 0;
    proof {
        lemma2_to64();
        assert(digits_of(text@).take(0) =~= Seq::<u8>::empty());
    }
    while i < text.len()
        invariant
            i <= text.len(),
            bits < 8,
            buffer < pow2(bits as nat),
            all_symbols(text@.take(i as int)),
            out@ == bytes,
            bytes_value(bytes) * pow2(bits as nat) + buffer == digits_value(
                digits_of(text@).take(i as int),
            ),
            8 * bytes.len() + bits == 5 * i,
        decreases text.len() - i,
    {
        let character = text[i];
        let digit: u8 = if 65 <= character && character <= 90 {
            character - 65
        } else if 50 <= character && character <= 55 {
            character - 24
        } else {
            return Err(StellarSdkError::InvalidBase32Character { at_position: i });
        };
        proof {
            lemma2_to64();
            let before = digits_of(text@).take(i as int);
            let after = digits_of(text@).take(i + 1);
            assert(after.drop_last() =~= before);
            assert(after.last() == digit);
            lemma_append_bits(bytes_value(bytes), bits as nat, buffer as nat, 5, digit as nat);
            lemma_pow2_adds(bits as nat, 5);
            assert(buffer * 32 + digit < pow2((bits + 5) as nat)) by (nonlinear_arith)
                requires
                    buffer < pow2(bits as nat),
                    digit < 32,
                    pow2(bits as nat) * 32 == pow2((bits + 5) as nat),
            ;
            assert(pow2((bits + 5) as nat) <= 4096) by {
                if bits < 7 {
                    vstd::arithmetic::power2::lemma_pow2_strictly_increases((bits + 5) as nat, 12);
                }
            }
            assert(all_symbols(text@.take(i + 1))) by {
                assert forall|j: int| 0 <= j < i + 1 implies is_symbol(
                    #[trigger] text@.take(i + 1)[j],
                ) by {
                    if j < i {
                        assert(text@.take(i as int)[j] == text@[j]);
                    }
                }
            }
        }
        buffer = buffer * 32 + digit as u32;
        bits = bits + 5;
        i += 1;
        if bits >= 8 {
            let (byte, rest) = split_bits(buffer, bits - 8);
            proof {
                lemma_digit_bound(buffer as nat, byte as nat, rest as nat, 8, bits as nat);
                lemma_move_bits(bytes_value(bytes), bits as nat, 8, byte as nat, rest as nat);
                let longer = bytes.push(byte as u8);
                assert(longer.drop_last() =~= bytes);
                bytes = longer;
            }
            out.push(byte as u8);
            buffer = rest;
            bits = bits - 8;
        }
    }
    proof {
        assert(text@.take(i as int) =~= text@);
        assert(digits_of(text@).take(i as int) =~= digits_of(text@));
        let total = digits_value(digits_of(text@));
        let unit = pow2(bits as nat);
        lemma_pow2_pos(bits as nat);
        vstd::arithmetic::div_mod::lemma_fundamental_div_mod_converse_div(
            total as int,
            unit as int,
            bytes_value(bytes) as int,
            buffer as int,
        );
        lemma_bytes_of_their_value(bytes);
    }
    Ok(out)
}

} // verus!

verus! {

/// The position of the first character of `text` outside the alphabet, or the
/// length of `text` if there is none.
pub open spec fn first_non_symbol(text: Seq<u8>) -> nat
    decreases text.len(),
{
    if text.len() == 0 || !is_symbol(text[0]) {
        0
    } else {
        1 + first_non_symbol(text.drop_first())
    }
}

/// A character outside the alphabet that only alphabet characters precede is
/// the first such character.
pub proof fn lemma_first_non_symbol(text: Seq<u8>, position: int)
    requires
        0 <= position < text.len(),
        !is_symbol(text[position]),
        all_symbols(text.take(position)),
    ensures
        first_non_symbol(text) == position,
    decreases position,
{
    if position > 0 {
        assert(text.take(position)[0] == text[0]);
        let rest = text.drop_first();
        assert(all_symbols(rest.take(position - 1))) by {
            assert forall|i: int| 0 <= i < position - 1 implies is_symbol(
                #[trigger] rest.take(position - 1)[i],
            ) by {
                assert(text.take(position)[i + 1] == rest.take(position - 1)[i]);
            }
        }
        lemma_first_non_symbol(rest, position - 1);
    }
}

} // verus!

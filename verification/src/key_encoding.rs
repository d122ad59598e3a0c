//! The textual form of keys: a version byte, the key itself and a checksum,
//! written in base32.

use crate::base32::{
    all_symbols, base32_decoding, base32_encoding, first_non_symbol, is_canonical,
    lemma_decoding_of_encoding, lemma_first_non_symbol, symbol,
};
use crate::bytes::{append, array_from, contains_byte, same_bytes};
use crate::crc::{checksum, crc16, flip_bit, lemma_crc_detects_bit_flip};
use crate::error::StellarSdkError;
use vstd::prelude::*;
use vstd::slice::slice_subrange;

verus! {

/// Version byte of an account id (`G...`).
pub const ED25519_PUBLIC_KEY_VERSION_BYTE: u8 = 48;

/// Version byte of a secret seed (`S...`).
pub const ED25519_SECRET_SEED_VERSION_BYTE: u8 = 144;

/// Version byte of a multiplexed account (`M...`).
pub const MUXED_ACCOUNT_VERSION_BYTE: u8 = 96;

/// Version byte of the hash of a pre-authorized transaction (`T...`).
pub const PRE_AUTH_TX_VERSION_BYTE: u8 = 152;

/// Version byte of the hash of a preimage (`X...`).
pub const SHA256_HASH_VERSION_BYTE: u8 = 184;

/// Version byte of a signed payload (`P...`).
pub const SIGNED_PAYLOAD_VERSION_BYTE: u8 = 120;

/// Version byte of a claimable balance id (`B...`).
pub const CLAIMABLE_BALANCE_VERSION_BYTE: u8 = 8;

/// A key as it is held inside its textual form: the version byte that tells
/// the kind of key, and the bytes of the key.
#[derive(Debug, Clone, PartialEq, Eq)]
pub struct RawKey {
    /// The version byte, which tells the kind of key.
    pub version: u8,
    /// The bytes of the key.
    pub payload: Vec<u8>,
}

impl View for RawKey {
    type V = (u8, Seq<u8>);

    open spec fn view(&self) -> (u8, Seq<u8>) {
        (self.version, self.payload@)
    }
}

/// The two bytes of a checksum, most significant first.
pub open spec fn checksum_bytes(crc: u16) -> Seq<u8> {
    seq![(crc / 256) as u8, (crc % 256) as u8]
}

/// The bytes behind the text of a key: version, payload, and the checksum of both.
pub open spec fn key_bytes(version: u8, payload: Seq<u8>) -> Seq<u8> {
    let body = seq![version] + payload;
    body + checksum_bytes(crc16(body))
}

/// The text of the key with the given version byte and payload.
pub open spec fn stellar_key_encoding(version: u8, payload: Seq<u8>) -> Seq<u8> {
    base32_encoding(key_bytes(version, payload))
}

/// The letter by which a version byte shows at the start of a key.
pub open spec fn version_symbol(version: u8) -> char {
    symbol(version / 8) as char
}

/// The version that a version mismatch reports as expected: the first
/// acceptable one, or 0 where none is acceptable.
pub open spec fn leading_version(versions: Seq<u8>) -> u8 {
    if versions.len() > 0 {
        versions[0]
    } else {
        0
    }
}

/// What decoding `text` as a key with one of the version bytes `versions`
/// gives: version and payload, or the first reason, in the order of the
/// checks, why `text` is no such key.
pub open spec fn stellar_key_decoding(text: Seq<u8>, versions: Seq<u8>) -> Result<
    (u8, Seq<u8>),
    StellarSdkError,
> {
    let bytes = base32_decoding(text);
    let body = bytes.take(bytes.len() - 2);
    let found = (bytes[bytes.len() - 2] * 256 + bytes[bytes.len() - 1]) as u16;
    if !all_symbols(text) {
        Err(
            StellarSdkError::InvalidBase32Character {
                at_position: first_non_symbol(text) as usize,
            },
        )
    } else if !is_canonical(text) {
        Err(StellarSdkError::InvalidStellarKeyEncoding)
    } else if bytes.len() < 3 {
        Err(StellarSdkError::InvalidStellarKeyEncodingLength)
    } else if found != crc16(body) {
        Err(StellarSdkError::InvalidStellarKeyChecksum { expected: crc16(body), found })
    } else if !versions.contains(bytes[0]) {
        Err(
            StellarSdkError::InvalidStellarKeyEncodingVersion {
                expected_version: version_symbol(leading_version(versions)),
                found_version: version_symbol(bytes[0]),
            },
        )
    } else {
        Ok((bytes[0], bytes.subrange(1, bytes.len() - 2)))
    }
}

/// What decoding `text` as a key of exactly `length` bytes gives.
pub open spec fn sized_key_decoding(text: Seq<u8>, versions: Seq<u8>, length: nat) -> Result<
    (u8, Seq<u8>),
    StellarSdkError,
> {
    match stellar_key_decoding(text, versions) {
        Err(e) => Err(e),
        Ok((version, payload)) => if payload.len() == length {
            Ok((version, payload))
        } else {
            Err(StellarSdkError::InvalidStellarKeyEncodingLength)
        },
    }
}

/// The result of a decoding with the key taken by its version and bytes.
pub open spec fn raw_key_view(r: Result<RawKey, StellarSdkError>) -> Result<
    (u8, Seq<u8>),
    StellarSdkError,
> {
    match r {
        Ok(key) => Ok(key@),
        Err(e) => Err(e),
    }
}

/// The result of a sized decoding with the key taken by its version and bytes.
pub open spec fn sized_key_view<const N: usize>(
    r: Result<(u8, [u8; N]), StellarSdkError>,
) -> Result<(u8, Seq<u8>), StellarSdkError> {
    match r {
        Ok((version, payload)) => Ok((version, payload@)),
        Err(e) => Err(e),
    }
}

proof fn lemma_key_bytes_shape(bytes: Seq<u8>)
    requires
        bytes.len() >= 3,
        (bytes[bytes.len() - 2] * 256 + bytes[bytes.len() - 1]) as u16 == crc16(
            bytes.take(bytes.len() - 2),
        ),
    ensures
        bytes == key_bytes(bytes[0], bytes.subrange(1, bytes.len() - 2)),
{
    let size = bytes.len() - 3;
    let body = seq![bytes[0]] + bytes.subrange(1, size + 1);
    assert(bytes.take(size + 1) =~= body);
    let crc = crc16(body);
    assert(crc == bytes[size + 1] * 256 + bytes[size + 2]);
    assert(crc / 256 == bytes[size + 1]);
    assert(crc % 256 == bytes[size + 2]);
    assert(bytes =~= body + checksum_bytes(crc));
}

/// Writes a key as text.
pub fn encode_stellar_key(version: u8, payload: &[u8]) -> (r: Vec<u8>)
    ensures
        r@ == stellar_key_encoding(version, payload@),
{
    let mut bytes: Vec<u8> = Vec::new();
    bytes.push(version);
    append(&mut bytes, payload);
    assert(bytes@ =~= seq![version] + payload@);
    let crc = checksum(bytes.as_slice());
    bytes.push((crc / 256) as u8);
    bytes.push((crc % 256) as u8);
    assert(bytes@ =~= key_bytes(version, payload@));
    crate::base32::encode(bytes.as_slice())
}

fn symbol_of_version(version: u8) -> (r: char)
    ensures
        r == version_symbol(version),
{
    let digit = version / 8;
    if digit < 26 {
        (digit + 65) as char
    } else {
        (digit + 24) as char
    }
}

/// Reads a key from its text. The text is accepted only if it is exactly
/// what `encode_stellar_key` writes for some key whose version byte is among
/// `expected_versions`.
pub fn decode_stellar_key(text: &[u8], expected_versions: &[u8]) -> (r: Result<
    RawKey,
    StellarSdkError,
>)
    ensures
        raw_key_view(r) == stellar_key_decoding(text@, expected_versions@),
        r matches Ok(key) ==> text@ == stellar_key_encoding(key.version, key.payload@)
            && expected_versions@.contains(key.version),
{
    let bytes = match crate::base32::decode(text) {
        Ok(bytes) => bytes,
        Err(StellarSdkError::InvalidBase32Character { at_position }) => {
            proof {
                lemma_first_non_symbol(text@, at_position as int);
            }
            return Err(StellarSdkError::InvalidBase32Character { at_position });
        },
        Err(e) => {
            return Err(e);
        },
    };
    let again = crate::base32::encode(bytes.as_slice());
    if !same_bytes(again.as_slice(), text) {
        return Err(StellarSdkError::InvalidStellarKeyEncoding);
    }
    let total = bytes.len();
    if total < 3 {
        return Err(StellarSdkError::InvalidStellarKeyEncodingLength);
    }
    let expected = checksum(slice_subrange(bytes.as_slice(), 0, total - 2));
    let found: u16 = (bytes[total - 2] as u16) * 256 + bytes[total - 1] as u16;
    assert(bytes@.subrange(0, total - 2) =~= bytes@.take(total - 2));
    if found != expected {
        return Err(StellarSdkError::InvalidStellarKeyChecksum { expected, found });
    }
    let version = bytes[0];
    if !contains_byte(expected_versions, version) {
        let leading = if expected_versions.len() > 0 {
            expected_versions[0]
        } else {
            0
        };
        return Err(
            StellarSdkError::InvalidStellarKeyEncodingVersion {
                expected_version: symbol_of_version(leading),
                found_version: symbol_of_version(version),
            },
        );
    }
    let mut payload: Vec<u8> = Vec::new();
    append(&mut payload, slice_subrange(bytes.as_slice(), 1, total - 2));
    proof {
        assert(payload@ =~= bytes@.subrange(1, total - 2));
        lemma_key_bytes_shape(bytes@);
    }
    Ok(RawKey { version, payload })
}

/// Reads a key of exactly `N` bytes from its text.
pub fn decode_sized_key<const N: usize>(text: &[u8], expected_versions: &[u8]) -> (r: Result<
    (u8, [u8; N]),
    StellarSdkError,
>)
    ensures
        sized_key_view(r) == sized_key_decoding(text@, expected_versions@, N as nat),
        r matches Ok((version, payload)) ==> text@ == stellar_key_encoding(version, payload@)
            && expected_versions@.contains(version),
{
    let key = match decode_stellar_key(text, expected_versions) {
        Ok(key) => key,
        Err(e) => {
            return Err(e);
        },
    };
    if key.payload.len() != N {
        return Err(StellarSdkError::InvalidStellarKeyEncodingLength);
    }
    let payload: [u8; N] = array_from(key.payload.as_slice(), 0);
    assert(payload@ =~= key.payload@);
    Ok((key.version, payload))
}

/// Every key is read back from its own text.
pub proof fn lemma_key_decodes_from_its_encoding(version: u8, payload: Seq<u8>, versions: Seq<u8>)
    requires
        versions.contains(version),
    ensures
        stellar_key_decoding(stellar_key_encoding(version, payload), versions) == Ok::<
            (u8, Seq<u8>),
            StellarSdkError,
        >((version, payload)),
        sized_key_decoding(stellar_key_encoding(version, payload), versions, payload.len()) == Ok::<
            (u8, Seq<u8>),
            StellarSdkError,
        >((version, payload)),
{
    let bytes = key_bytes(version, payload);
    let body = seq![version] + payload;
    lemma_decoding_of_encoding(bytes);
    assert(bytes.take(bytes.len() - 2) =~= body);
    assert(bytes.subrange(1, bytes.len() - 2) =~= payload);
    assert(bytes[0] == version);
}

/// A text that decodes to a key is the very text that the key encodes to, so
/// no two texts stand for the same key.
pub proof fn lemma_decoded_key_encodes_to_its_text(text: Seq<u8>, versions: Seq<u8>)
    requires
        stellar_key_decoding(text, versions) is Ok,
    ensures
        stellar_key_decoding(text, versions) matches Ok((version, payload))
            && stellar_key_encoding(version, payload) == text && versions.contains(version),
{
    lemma_key_bytes_shape(base32_decoding(text));
}

/// The bytes behind a key's text after one bit of the version byte or of the
/// payload has been inverted, the checksum left as it was.
pub open spec fn damaged_key_bytes(version: u8, payload: Seq<u8>, index: int, bit: u8) -> Seq<u8> {
    let body = seq![version] + payload;
    flip_bit(body, index, bit) + checksum_bytes(crc16(body))
}

/// Inverting any single bit of the version byte or of the payload of a key
/// makes the text fail to decode, with a checksum error, whatever versions
/// are acceptable.
pub proof fn lemma_bit_flip_fails_checksum(
    version: u8,
    payload: Seq<u8>,
    index: int,
    bit: u8,
    versions: Seq<u8>,
)
    requires
        0 <= index <= payload.len(),
        bit < 8,
    ensures
        stellar_key_decoding(
            base32_encoding(damaged_key_bytes(version, payload, index, bit)),
            versions,
        ) matches Err(StellarSdkError::InvalidStellarKeyChecksum { expected, found })
            && expected != found && found == crc16(seq![version] + payload),
{
    let body = seq![version] + payload;
    let damaged = flip_bit(body, index, bit);
    let bytes = damaged_key_bytes(version, payload, index, bit);
    lemma_decoding_of_encoding(bytes);
    lemma_crc_detects_bit_flip(body, index, bit);
    assert(bytes.take(bytes.len() - 2) =~= damaged);
}

} // verus!

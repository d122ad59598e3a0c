//! Error values returned by the library.

use vstd::prelude::*;

verus! {

/// `hex::FromHexError`, the reason the `hex` crate gives for refusing a text.
/// Values of it are carried through, never inspected.
#[verifier::external_type_specification]
#[verifier::external_body]
pub struct ExFromHexError(hex::FromHexError);

/// `base64::DecodeError`, the reason the `base64` crate gives for refusing a
/// text. Values of it are carried through, never inspected.
#[verifier::external_type_specification]
#[verifier::external_body]
pub struct ExBase64DecodeError(base64::DecodeError);

/// Why a byte sequence is not the binary encoding of a value.
#[derive(Debug, Clone, Copy, PartialEq, Eq)]
pub enum XdrError {
    /// The input ends before the item that starts at `at_position` is complete.
    SuddenEnd { at_position: usize, expected_length: usize },
    /// A complete value was read but `remaining_no_of_bytes` bytes follow it.
    TypeEndsTooEarly { remaining_no_of_bytes: usize },
    /// A length prefix announces more elements than the field may hold.
    ExceedsMaxLength { at_position: usize, max_length: u32, actual_length: u32 },
    /// A padding byte that must be zero is not.
    NonZeroPadding { at_position: usize },
    /// The tag of a union or enumeration names no known variant.
    InvalidDiscriminator { at_position: usize, found: u32 },
    /// The presence flag of an optional field is neither 0 nor 1.
    InvalidOptional { at_position: usize, has_code: u32 },
    /// The text that should hold the binary encoding is not base64.
    InvalidBase64,
}

/// Everything that can go wrong while building, encoding or decoding values.
#[derive(Debug, PartialEq)]
pub enum StellarSdkError {
    /// The character at `at_position` is not part of the base32 alphabet.
    InvalidBase32Character { at_position: usize },
    /// The text decodes but is not the canonical encoding of the bytes it decodes to.
    InvalidStellarKeyEncoding,
    /// The decoded key does not have the length its kind requires.
    InvalidStellarKeyEncodingLength,
    /// The version byte is not acceptable for the requested kind of key.
    InvalidStellarKeyEncodingVersion { expected_version: char, found_version: char },
    /// The checksum stored in the key differs from the one computed over it.
    InvalidStellarKeyChecksum { expected: u16, found: u16 },
    /// A signature has the wrong number of bytes.
    InvalidSignatureLength { found_length: usize, expected_length: usize },
    /// The signature does not verify under the given public key.
    PublicKeyCantVerify,
    /// The base64 text of a signature or of a binary blob is malformed.
    InvalidBase64Encoding(base64::DecodeError),
    /// The envelope already carries the maximal number of signatures (20).
    TooManySignatures,
    /// No signer in the given set matches the hint of a signature.
    UnknownSignerKey([u8; 4]),
    /// An asset code has more characters than its variant allows.
    AssetCodeTooLong,
    /// An asset code is empty.
    AssetCodeEmpty,
    /// An asset code holds a character other than a letter or a digit.
    InvalidAssetCodeCharacter,
    /// A bounded string or byte field is longer than allowed.
    ExceedsMaximumLength { requested_length: usize, allowed_length: i32 },
    /// A hexadecimal text is malformed.
    InvalidHexEncoding(hex::FromHexError),
    /// A hash does not have 32 bytes.
    InvalidHashLength { found_length: usize, expected_length: usize },
    /// A ratio has no approximation with 32-bit numerator and denominator.
    NotApproximableAsFraction,
    /// A price is not a positive fraction.
    InvalidPrice,
    /// A trust line limit is negative.
    InvalidTrustLineLimit,
    /// An authorization flag is out of range.
    InvalidAuthorizeFlag,
    /// An amount text is not a decimal number with at most seven fractional digits.
    InvalidAmountString,
    /// An amount does not fit into 64 bits.
    AmountOverflow,
    /// An amount is negative where zero or more is required.
    AmountNegative,
    /// An amount is zero or negative where a positive one is required.
    AmountNonPositive,
    /// A binary value has the wrong number of bytes.
    InvalidBinaryLength { found_length: usize, expected_length: usize },
    /// The bytes are not the binary encoding of a claimable balance id.
    InvalidBalanceId,
    /// A claimable balance was requested without any claimant.
    EmptyClaimants,
    /// A signer weight exceeds 255.
    InvalidSignerWeight,
    /// A fee bump transaction cannot be wrapped into another fee bump.
    CantWrapFeeBumpTransaction,
    /// A transaction was requested without any operation.
    MissingOperations,
}

} // verus!

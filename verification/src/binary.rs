//! Binary values given either as bytes or as hexadecimal text.

use crate::bytes::array_from;
use crate::error::StellarSdkError;
use vstd::prelude::*;

verus! {

/// Whether `character` is a hexadecimal digit, in either case.
pub open spec fn is_hex_digit(character: u8) -> bool {
    (48 <= character <= 57) || (65 <= character <= 70) || (97 <= character <= 102)
}

/// The value of a hexadecimal digit.
pub open spec fn hex_digit_value(character: u8) -> int {
    if character <= 57 {
        character - 48
    } else if character <= 70 {
        character - 55
    } else {
        character - 87
    }
}

/// Whether `text` is hexadecimal text: an even number of hexadecimal digits.
pub open spec fn is_hex_text(text: Seq<u8>) -> bool {
    &&& text.len() % 2 == 0
    &&& forall|i: int| 0 <= i < text.len() ==> is_hex_digit(#[trigger] text[i])
}

/// The bytes that hexadecimal text stands for, two digits for each byte.
pub open spec fn hex_value(text: Seq<u8>) -> Seq<u8> {
    Seq::new(
        text.len() / 2,
        |i: int| (16 * hex_digit_value(text[2 * i]) + hex_digit_value(text[2 * i + 1])) as u8,
    )
}

/// Calls `hex::decode`. That function accepts exactly the texts of even
/// length that consist of the digits `0`-`9`, `a`-`f` and `A`-`F`, and turns
/// each pair of digits into the byte `16 * first + second`.
#[verifier::external_body]
fn hex_decode(text: &[u8]) -> (r: Result<Vec<u8>, hex::FromHexError>)
    ensures
        r matches Ok(bytes) ==> is_hex_text(text@) && bytes@ == hex_value(text@),
        r is Err ==> !is_hex_text(text@),
{
    hex::decode(text)
}

/// A binary value, given as bytes or as hexadecimal text.
#[derive(Debug, Clone, PartialEq, Eq)]
pub enum AsBinary {
    /// The bytes themselves.
    Binary(Vec<u8>),
    /// The bytes in hexadecimal notation.
    Hex(Vec<u8>),
}

impl AsBinary {
    /// The bytes that are meant, if the notation is valid.
    pub open spec fn bytes(&self) -> Option<Seq<u8>> {
        match self {
            AsBinary::Binary(binary) => Some(binary@),
            AsBinary::Hex(text) => if is_hex_text(text@) {
                Some(hex_value(text@))
            } else {
                None
            },
        }
    }

    /// The value as an array of `N` bytes.
    ///
    /// Fails with `InvalidHexEncoding` if the value is given as text that is
    /// not hexadecimal, and with `InvalidBinaryLength` if it does not have
    /// `N` bytes.
    pub fn as_binary<const N: usize>(&self) -> (r: Result<[u8; N], StellarSdkError>)
        ensures
            match r {
                Ok(array) => self.bytes() == Some(array@),
                Err(StellarSdkError::InvalidHexEncoding(_)) => self.bytes() is None,
                Err(StellarSdkError::InvalidBinaryLength { found_length, expected_length }) => {
                    &&& self.bytes() matches Some(bytes)
                    &&& bytes.len() != N
                    &&& found_length == bytes.len()
                    &&& expected_length == N
                },
                Err(_) => false,
            },
    {
        match self {
            AsBinary::Binary(binary) => Self::sized::<N>(binary.as_slice()),
            AsBinary::Hex(text) => match hex_decode(text.as_slice()) {
                Ok(binary) => Self::sized::<N>(binary.as_slice()),
                Err(e) => Err(StellarSdkError::InvalidHexEncoding(e)),
            },
        }
    }

    fn sized<const N: usize>(binary: &[u8]) -> (r: Result<[u8; N], StellarSdkError>)
        ensures
            match r {
                Ok(array) => array@ == binary@,
                Err(StellarSdkError::InvalidBinaryLength { found_length, expected_length }) => {
                    &&& binary@.len() != N
                    &&& found_length == binary@.len()
                    &&& expected_length == N
                },
                Err(_) => false,
            },
    {
        if binary.len() != N {
            return Err(
                StellarSdkError::InvalidBinaryLength {
                    found_length: binary.len(),
                    expected_length: N,
                },
            );
        }
        let array: [u8; N] = array_from(binary, 0);
        assert(array@ =~= binary@);
        Ok(array)
    }
}

} // verus!

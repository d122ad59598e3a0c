//! Memos and their bounds.

use crate::bytes::array_from;
use crate::error::StellarSdkError;
use crate::xdr::opaque::LimitedString;
use crate::xdr::types::Memo;
use vstd::prelude::*;

verus! {

/// The largest number of bytes in a text memo.
pub const MAX_MEMO_TEXT_LENGTH: usize = 28;

/// The number of bytes in a hash.
pub const HASH_LENGTH: usize = 32;

/// The text memo with the given bytes, if they are at most 28.
pub open spec fn text_memo(text: Seq<u8>) -> Result<Memo, StellarSdkError> {
    if text.len() <= MAX_MEMO_TEXT_LENGTH {
        Ok(Memo::MemoText(LimitedString::<28>::holding(text)))
    } else {
        Err(
            StellarSdkError::ExceedsMaximumLength {
                requested_length: text.len() as usize,
                allowed_length: 28,
            },
        )
    }
}

/// Copies a hash of exactly 32 bytes.
pub fn hash_from(hash: &[u8]) -> (r: Result<[u8; 32], StellarSdkError>)
    ensures
        match r {
            Ok(array) => array@ == hash@,
            Err(StellarSdkError::InvalidHashLength { found_length, expected_length }) => {
                &&& hash@.len() != HASH_LENGTH
                &&& found_length == hash@.len()
                &&& expected_length == HASH_LENGTH
            },
            Err(_) => false,
        },
{
    if hash.len() != HASH_LENGTH {
        return Err(
            StellarSdkError::InvalidHashLength {
                found_length: hash.len(),
                expected_length: HASH_LENGTH,
            },
        );
    }
    let array: [u8; 32] = array_from(hash, 0);
    assert(array@ =~= hash@);
    Ok(array)
}

impl Memo {
    /// No memo.
    pub fn none() -> (r: Memo)
        ensures
            r == Memo::MemoNone,
    {
        Memo::MemoNone
    }

    /// A text memo of at most 28 bytes.
    pub fn from_text(text: &[u8]) -> (r: Result<Memo, StellarSdkError>)
        ensures
            r == text_memo(text@),
    {
        match LimitedString::<28>::new(text) {
            Ok(text) => Ok(Memo::MemoText(text)),
            Err(e) => Err(e),
        }
    }

    /// A numeric memo.
    pub fn from_id(id: u64) -> (r: Memo)
        ensures
            r == Memo::MemoId(id),
    {
        Memo::MemoId(id)
    }

    /// A hash memo. The hash must have exactly 32 bytes.
    pub fn from_hash(hash: &[u8]) -> (r: Result<Memo, StellarSdkError>)
        ensures
            match r {
                Ok(memo) => memo matches Memo::MemoHash(array) && array@ == hash@,
                Err(StellarSdkError::InvalidHashLength { found_length, expected_length }) => {
                    &&& hash@.len() != HASH_LENGTH
                    &&& found_length == hash@.len()
                    &&& expected_length == HASH_LENGTH
                },
                Err(_) => false,
            },
    {
        match hash_from(hash) {
            Ok(array) => Ok(Memo::MemoHash(array)),
            Err(e) => Err(e),
        }
    }

    /// A memo that refers to a transaction being refunded. The hash must
    /// have exactly 32 bytes.
    pub fn from_return_hash(hash: &[u8]) -> (r: Result<Memo, StellarSdkError>)
        ensures
            match r {
                Ok(memo) => memo matches Memo::MemoReturn(array) && array@ == hash@,
                Err(StellarSdkError::InvalidHashLength { found_length, expected_length }) => {
                    &&& hash@.len() != HASH_LENGTH
                    &&& found_length == hash@.len()
                    &&& expected_length == HASH_LENGTH
                },
                Err(_) => false,
            },
    {
        match hash_from(hash) {
            Ok(array) => Ok(Memo::MemoReturn(array)),
            Err(e) => Err(e),
        }
    }
}

} // verus!

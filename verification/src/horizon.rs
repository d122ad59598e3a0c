//! The decisions of a client of the network's indexing service: which
//! address to ask, what to make of the status of an answer, and which
//! sequence number follows the one an account has.
//!
//! Sending requests and reading JSON is left to the caller.

use crate::amount::{all_digits, decimal_value, is_digit};
use crate::bytes::append;
use crate::keys::IntoAccountId;
use crate::xdr::types::AccountId;
use vstd::prelude::*;
use vstd::slice::slice_subrange;

verus! {

/// The status of an answer that carries what was asked for.
pub const HTTP_STATUS_OK: u16 = 200;

/// Why a request to the indexing service gave no usable answer.
#[derive(Debug, Clone, PartialEq, Eq)]
pub enum FetchError {
    /// The deadline passed before the answer was complete.
    DeadlineReached,
    /// The connection failed.
    IoError,
    /// The request was malformed.
    Invalid,
    /// The transport failed for a reason it does not tell.
    Unknown,
    /// The service answered with a status other than 200.
    UnexpectedResponseStatus { status: u16, body: Vec<u8> },
    /// The answer is not the JSON that was expected.
    JsonParseError,
    /// The sequence number in the answer is no 64-bit number, or has no successor.
    InvalidSequenceNumber,
    /// The account requires a memo.
    AccountRequiredMemo(AccountId),
}

/// All segments one after the other.
pub open spec fn joined(segments: Seq<Vec<u8>>) -> Seq<u8>
    decreases segments.len(),
{
    if segments.len() == 0 {
        Seq::empty()
    } else {
        joined(segments.drop_last()) + segments.last()@
    }
}

/// The address of a request: the base address followed by the segments of the path.
pub fn request_url(base_url: &[u8], path: &Vec<Vec<u8>>) -> (r: Vec<u8>)
    ensures
        r@ == base_url@ + joined(path@),
{
    let mut url: Vec<u8> = Vec::new();
    append(&mut url, base_url);
    let mut i: usize = 0;
    assert(path@.take(0) =~= Seq::<Vec<u8>>::empty());
    while i < path.len()
        invariant
            i <= path.len(),
            url@ == base_url@ + joined(path@.take(i as int)),
        decreases path.len() - i,
    {
        append(&mut url, path[i].as_slice());
        i += 1;
        proof {
            assert(path@.take(i as int).drop_last() =~= path@.take(i - 1));
            assert(url@ =~= base_url@ + joined(path@.take(i as int)));
        }
    }
    assert(path@.take(i as int) =~= path@);
    url
}

/// The body of an answer, if its status is 200; else the status and the
/// body as an error.
pub fn check_response(status: u16, body: Vec<u8>) -> (r: Result<Vec<u8>, FetchError>)
    ensures
        match r {
            Ok(accepted) => status == HTTP_STATUS_OK && accepted@ == body@,
            Err(FetchError::UnexpectedResponseStatus { status: reported, body: kept }) => {
                &&& status != HTTP_STATUS_OK
                &&& reported == status
                &&& kept@ == body@
            },
            Err(_) => false,
        },
{
    if status != HTTP_STATUS_OK {
        return Err(FetchError::UnexpectedResponseStatus { status, body });
    }
    Ok(body)
}

/// `text` without a leading plus or minus sign.
pub open spec fn digits_part(text: Seq<u8>) -> Seq<u8> {
    if text.len() > 0 && (text[0] == 43 || text[0] == 45) {
        text.skip(1)
    } else {
        text
    }
}

/// The number that a decimal text with an optional sign denotes, if it is
/// such a text.
pub open spec fn signed_decimal(text: Seq<u8>) -> Option<int> {
    let digits = digits_part(text);
    if digits.len() == 0 || !all_digits(digits) {
        None
    } else if text[0] == 45 {
        Some(-(decimal_value(digits) as int))
    } else {
        Some(decimal_value(digits) as int)
    }
}

/// The sequence number that follows the one written in `text`: one more,
/// provided that both are 64-bit numbers.
pub open spec fn following_sequence_number(text: Seq<u8>) -> Option<i64> {
    match signed_decimal(text) {
        None => None,
        Some(value) => if i64::MIN <= value < i64::MAX {
            Some((value + 1) as i64)
        } else {
            None
        },
    }
}

/// The sequence number for the next transaction of an account whose current
/// sequence number is written in `sequence`.
pub fn next_sequence_number(sequence: &[u8]) -> (r: Result<i64, FetchError>)
    ensures
        match r {
            Ok(next) => following_sequence_number(sequence@) == Some(next),
            Err(e) => following_sequence_number(sequence@) is None && e
                == FetchError::InvalidSequenceNumber,
        },
{
    let signed = sequence.len() > 0 && (sequence[0] == 43 || sequence[0] == 45);
    let negative = signed && sequence[0] == 45;
    let digits = if signed {
        slice_subrange(sequence, 1, sequence.len())
    } else {
        sequence
    };
    assert(digits@ =~= digits_part(sequence@));
    if digits.len() == 0 {
        return Err(FetchError::InvalidSequenceNumber);
    }
    let limit: u128 = 0x8000_0000_0000_0000;
    let mut value: u128 = 0;
    let mut i: usize = 0;
    while i < digits.len()
        invariant
            i <= digits.len(),
            digits@ == digits_part(sequence@),
            limit == 0x8000_0000_0000_0000,
            all_digits(digits@.take(i as int)),
            if decimal_value(digits@.take(i as int)) <= limit {
                value == decimal_value(digits@.take(i as int))
            } else {
                value == limit + 1
            },
        decreases digits.len() - i,
    {
        let character = digits[i];
        if character < 48 || character > 57 {
            assert(!is_digit(digits@[i as int]));
            return Err(FetchError::InvalidSequenceNumber);
        }
        proof {
            assert(digits@.take(i + 1).drop_last() =~= digits@.take(i as int));
            assert(all_digits(digits@.take(i + 1))) by {
                assert forall|j: int| 0 <= j < i + 1 implies is_digit(
                    #[trigger] digits@.take(i + 1)[j],
                ) by {
                    if j < i {
                        assert(digits@.take(i as int)[j] == digits@[j]);
                    }
                }
            }
        }
        if value <= limit {
            value = value * 10 + (character - 48) as u128;
            if value > limit {
                value = limit + 1;
            }
        }
        i += 1;
    }
    assert(digits@.take(i as int) =~= digits@);
    if negative {
        if value > limit {
            return Err(FetchError::InvalidSequenceNumber);
        }
        let current: i128 = -(value as i128);
        Ok((current + 1) as i64)
    } else {
        if value >= limit - 1 {
            return Err(FetchError::InvalidSequenceNumber);
        }
        Ok((value + 1) as i64)
    }
}

/// The path under which the service describes an account.
pub fn account_path<T: IntoAccountId>(account_id: T) -> (r: Option<Vec<Vec<u8>>>)
    ensures
        match r {
            Some(path) => {
                &&& account_id.account_id() matches Ok(account)
                &&& path@.len() == 2
                &&& path@[0]@ == seq![47u8, 97, 99, 99, 111, 117, 110, 116, 115, 47]
                &&& path@[1]@ == account.encoding()
            },
            None => account_id.account_id() is Err,
        },
{
    match account_id.into_account_id() {
        Ok(account) => {
            let mut path: Vec<Vec<u8>> = Vec::new();
            path.push(accounts_segment());
            path.push(account.to_encoding());
            Some(path)
        },
        Err(_) => None,
    }
}

/// The path segment `/accounts/`.
pub fn accounts_segment() -> (r: Vec<u8>)
    ensures
        r@ == seq![47u8, 97, 99, 99, 111, 117, 110, 116, 115, 47],
{
    let mut segment: Vec<u8> = Vec::new();
    segment.push(47);
    segment.push(97);
    segment.push(99);
    segment.push(99);
    segment.push(111);
    segment.push(117);
    segment.push(110);
    segment.push(116);
    segment.push(115);
    segment.push(47);
    assert(segment@ =~= seq![47u8, 97, 99, 99, 111, 117, 110, 116, 115, 47]);
    segment
}

} // verus!

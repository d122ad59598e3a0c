//! Binary encodings written as base64 text, the form in which envelopes are
//! handed to the network.

use crate::error::{StellarSdkError, XdrError};
use crate::transaction::{decorated, SIGNATURE_LENGTH};
use crate::xdr::codec::{parse_all, XdrCodec};
use crate::xdr::envelope::{whole_view, TransactionEnvelope, TransactionEnvelopeView};
use crate::xdr::transaction::MAX_SIGNATURES;
use crate::xdr::types::SignatureHint;
use vstd::prelude::*;

verus! {

/// The text that `base64::encode` gives for `data`: standard alphabet, with padding.
pub uninterp spec fn base64_encoding(data: Seq<u8>) -> Seq<u8>;

/// The bytes that `base64::decode` gives for `text`, where it accepts `text`.
pub uninterp spec fn base64_decoding(text: Seq<u8>) -> Option<Seq<u8>>;

/// Whether the text for `length` bytes has a length that the machine can hold.
pub open spec fn encodable_length(length: nat) -> bool {
    (length / 3) * 4 + 4 <= usize::MAX
}

/// Whether a text of `length` characters is short enough to be decoded.
pub open spec fn decodable_length(length: nat) -> bool {
    length + 7 <= usize::MAX
}

/// Calls `base64::encode`, whose result depends on the bytes alone. That
/// function gives up where the length of the text would exceed the range of
/// `usize`, so such data is excluded.
#[verifier::external_body]
fn base64_encode(data: &[u8]) -> (r: Vec<u8>)
    requires
        encodable_length(data@.len()),
    ensures
        r@ == base64_encoding(data@),
{
    base64::encode(data).into_bytes()
}

/// Calls `base64::decode`, whose result depends on the text alone. That
/// function gives up where the length of the text plus seven exceeds the
/// range of `usize`, so such a text is excluded.
#[verifier::external_body]
fn base64_decode(text: &[u8]) -> (r: Result<Vec<u8>, base64::DecodeError>)
    requires
        decodable_length(text@.len()),
    ensures
        r matches Ok(bytes) ==> base64_decoding(text@) == Some(bytes@),
        r is Err ==> base64_decoding(text@) is None,
{
    base64::decode(text)
}

/// What reading base64 text as one value gives.
pub open spec fn parse_base64<T: XdrCodec>(text: Seq<u8>) -> Result<T, XdrError> {
    match base64_decoding(text) {
        None => Err(XdrError::InvalidBase64),
        Some(bytes) => parse_all::<T>(bytes),
    }
}

/// What reading base64 text as one envelope gives.
pub open spec fn parse_base64_envelope(text: Seq<u8>) -> Result<TransactionEnvelopeView, XdrError> {
    match base64_decoding(text) {
        None => Err(XdrError::InvalidBase64),
        Some(bytes) => TransactionEnvelopeView::parse_all(bytes),
    }
}

/// The binary encoding of `value` as base64 text.
pub fn to_base64_xdr<T: XdrCodec>(value: &T) -> (r: Vec<u8>)
    requires
        value.wf(),
        encodable_length(value.xdr().len()),
    ensures
        r@ == base64_encoding(value.xdr()),
{
    let binary = value.to_xdr();
    base64_encode(binary.as_slice())
}

/// Reads a value from the base64 text of its binary encoding.
pub fn from_base64_xdr<T: XdrCodec>(text: &[u8]) -> (r: Result<T, XdrError>)
    requires
        decodable_length(text@.len()),
    ensures
        r == parse_base64::<T>(text@),
{
    match base64_decode(text) {
        Ok(binary) => T::from_xdr(binary.as_slice()),
        Err(_) => Err(XdrError::InvalidBase64),
    }
}

impl TransactionEnvelope {
    /// The binary encoding of the envelope as base64 text.
    pub fn to_base64_xdr(&self) -> (r: Vec<u8>)
        requires
            self@.wf(),
            encodable_length(self@.xdr().len()),
        ensures
            r@ == base64_encoding(self@.xdr()),
    {
        let binary = self.to_xdr();
        base64_encode(binary.as_slice())
    }

    /// Reads an envelope from the base64 text of its binary encoding.
    pub fn from_base64_xdr(text: &[u8]) -> (r: Result<TransactionEnvelope, XdrError>)
        requires
            decodable_length(text@.len()),
        ensures
            whole_view(r) == parse_base64_envelope(text@),
    {
        match base64_decode(text) {
            Ok(binary) => Self::from_xdr(binary.as_slice()),
            Err(_) => Err(XdrError::InvalidBase64),
        }
    }

    /// Appends a signature that is given as base64 text.
    ///
    /// Fails with `InvalidBase64Encoding` if the text is not base64;
    /// otherwise as `add_signature` does for the decoded bytes. On failure
    /// the envelope is left as it was.
    pub fn add_base64_signature(&mut self, hint: SignatureHint, text: &[u8]) -> (r: Result<
        (),
        StellarSdkError,
    >)
        requires
            decodable_length(text@.len()),
        ensures
            match r {
                Ok(_) => {
                    &&& base64_decoding(text@) matches Some(signature)
                    &&& old(self)@.signatures().len() < MAX_SIGNATURES
                    &&& signature.len() == SIGNATURE_LENGTH
                    &&& final(self)@ == old(self)@.with_signatures(
                        old(self)@.signatures().push(decorated(hint, signature)),
                    )
                },
                Err(StellarSdkError::InvalidBase64Encoding(_)) => {
                    &&& base64_decoding(text@) is None
                    &&& final(self)@ == old(self)@
                },
                Err(StellarSdkError::TooManySignatures) => {
                    &&& base64_decoding(text@) is Some
                    &&& old(self)@.signatures().len() >= MAX_SIGNATURES
                    &&& final(self)@ == old(self)@
                },
                Err(StellarSdkError::InvalidSignatureLength { found_length, expected_length }) => {
                    &&& base64_decoding(text@) matches Some(signature)
                    &&& old(self)@.signatures().len() < MAX_SIGNATURES
                    &&& signature.len() != SIGNATURE_LENGTH
                    &&& found_length == signature.len()
                    &&& expected_length == SIGNATURE_LENGTH
                    &&& final(self)@ == old(self)@
                },
                Err(_) => false,
            },
    {
        match base64_decode(text) {
            Ok(signature) => self.add_signature(hint, signature.as_slice()),
            Err(e) => Err(StellarSdkError::InvalidBase64Encoding(e)),
        }
    }
}

} // verus!

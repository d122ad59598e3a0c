//! Assembling transactions and envelopes: the bounds on their lists, the
//! bytes that are signed, and the wrapping into a fee bump.

use crate::bytes::append;
use crate::error::StellarSdkError;
use crate::keys::IntoMuxedAccountId;
use crate::validity::{all_valid, lemma_valid_operations, transaction_error};
use crate::xdr::array::all_wf;
use crate::xdr::codec::{u32_xdr, XdrCodec};
use crate::xdr::envelope::{
    FeeBumpTransaction, FeeBumpTransactionEnvelope, FeeBumpTransactionEnvelopeView,
    FeeBumpTransactionView, TransactionEnvelope, TransactionEnvelopeView,
};
use crate::xdr::opaque::LimitedString;
use crate::xdr::operation::Operation;
use crate::xdr::transaction::{
    Transaction, TransactionV1Envelope, TransactionV1EnvelopeView, TransactionView,
    ENVELOPE_TYPE_TX, ENVELOPE_TYPE_TX_FEE_BUMP, MAX_OPERATIONS, MAX_SIGNATURES,
};
use crate::xdr::types::{
    DecoratedSignature, Memo, PublicKey, SignatureHint, TimeBounds, TransactionExt,
};
use vstd::prelude::*;

verus! {

/// The number of bytes in a signature.
pub const SIGNATURE_LENGTH: usize = 64;

/// The transaction with the given parts, if it has between 1 and 100
/// operations. The source account is checked first, then the number of
/// operations.
pub open spec fn assembled_transaction<T: IntoMuxedAccountId>(
    source_account: T,
    fee: u32,
    seq_num: i64,
    time_bounds: Option<TimeBounds>,
    memo: Memo,
    operations: Seq<Operation>,
) -> Result<TransactionView, StellarSdkError> {
    match source_account.muxed_account_id() {
        Err(e) => Err(e),
        Ok(source_account) => if operations.len() == 0 {
            Err(StellarSdkError::MissingOperations)
        } else if operations.len() > MAX_OPERATIONS {
            Err(
                StellarSdkError::ExceedsMaximumLength {
                    requested_length: operations.len() as usize,
                    allowed_length: 100,
                },
            )
        } else {
            Ok(
                TransactionView {
                    source_account,
                    fee,
                    seq_num,
                    time_bounds,
                    memo,
                    operations,
                    ext: TransactionExt::V0,
                },
            )
        },
    }
}

/// The result of an assembly with the value taken by its view.
pub open spec fn assembly_view<T: View>(r: Result<T, StellarSdkError>) -> Result<
    T::V,
    StellarSdkError,
> {
    match r {
        Ok(value) => Ok(value@),
        Err(e) => Err(e),
    }
}

/// The bytes that are signed for a transaction: the id of the network, the
/// tag of the envelope, and the transaction.
pub open spec fn transaction_signature_base(
    network_id: crate::xdr::types::Hash,
    tx: TransactionView,
) -> Seq<u8> {
    network_id@ + (u32_xdr(ENVELOPE_TYPE_TX) + tx.xdr())
}

/// The bytes that are signed for a fee bump transaction.
pub open spec fn fee_bump_signature_base(
    network_id: crate::xdr::types::Hash,
    tx: FeeBumpTransactionView,
) -> Seq<u8> {
    network_id@ + (u32_xdr(ENVELOPE_TYPE_TX_FEE_BUMP) + tx.xdr())
}

impl Transaction {
    /// Assembles a transaction from between 1 and 100 operations.
    pub fn new<T: IntoMuxedAccountId>(
        source_account: T,
        fee: u32,
        seq_num: i64,
        time_bounds: Option<TimeBounds>,
        memo: Memo,
        operations: Vec<Operation>,
    ) -> (r: Result<Transaction, StellarSdkError>)
        ensures
            assembly_view(r) == assembled_transaction(
                source_account,
                fee,
                seq_num,
                time_bounds,
                memo,
                operations@,
            ),
            r matches Ok(tx) ==> 1 <= tx.operations@.len() <= MAX_OPERATIONS && (memo.wf()
                && all_wf(operations@) ==> tx@.wf()) && (all_valid(operations@)
                ==> transaction_error(tx@) is None),
    {
        proof {
            if all_valid(operations@) {
                lemma_valid_operations(operations@);
            }
        }
        let source_account = match source_account.into_muxed_account_id() {
            Ok(source_account) => source_account,
            Err(e) => {
                return Err(e);
            },
        };
        if operations.len() == 0 {
            return Err(StellarSdkError::MissingOperations);
        }
        if operations.len() > MAX_OPERATIONS as usize {
            return Err(
                StellarSdkError::ExceedsMaximumLength {
                    requested_length: operations.len(),
                    allowed_length: 100,
                },
            );
        }
        Ok(
            Transaction {
                source_account,
                fee,
                seq_num,
                time_bounds,
                memo,
                operations,
                ext: TransactionExt::V0,
            },
        )
    }

    /// The bytes to sign for this transaction on the network with the given id.
    pub fn signature_base(&self, network_id: &crate::xdr::types::Hash) -> (r: Vec<u8>)
        requires
            self@.wf(),
        ensures
            r@ == transaction_signature_base(*network_id, self@),
    {
        let mut out: Vec<u8> = Vec::new();
        append(&mut out, network_id.as_slice());
        let ghost before_tag = out@;
        ENVELOPE_TYPE_TX.write_xdr(&mut out);
        self.write_xdr(&mut out);
        assert(out@ =~= before_tag + (u32_xdr(ENVELOPE_TYPE_TX) + self@.xdr()));
        assert(before_tag =~= network_id@);
        out
    }

    /// The envelope that carries this transaction, without signatures yet.
    pub fn into_transaction_envelope(self) -> (r: TransactionEnvelope)
        ensures
            r@ == TransactionEnvelopeView::EnvelopeTypeTx(
                TransactionV1EnvelopeView { tx: self@, signatures: Seq::empty() },
            ),
            self@.wf() ==> r@.wf(),
    {
        TransactionEnvelope::EnvelopeTypeTx(
            TransactionV1Envelope { tx: self, signatures: Vec::new() },
        )
    }
}

impl FeeBumpTransaction {
    /// The bytes to sign for this fee bump transaction on the network with
    /// the given id.
    pub fn signature_base(&self, network_id: &crate::xdr::types::Hash) -> (r: Vec<u8>)
        requires
            self@.wf(),
        ensures
            r@ == fee_bump_signature_base(*network_id, self@),
    {
        let mut out: Vec<u8> = Vec::new();
        append(&mut out, network_id.as_slice());
        let ghost before_tag = out@;
        ENVELOPE_TYPE_TX_FEE_BUMP.write_xdr(&mut out);
        self.write_xdr(&mut out);
        assert(out@ =~= before_tag + (u32_xdr(ENVELOPE_TYPE_TX_FEE_BUMP) + self@.xdr()));
        assert(before_tag =~= network_id@);
        out
    }
}

impl TransactionEnvelopeView {
    /// The signatures that the envelope carries.
    pub open spec fn signatures(self) -> Seq<DecoratedSignature> {
        match self {
            TransactionEnvelopeView::EnvelopeTypeTx(inner) => inner.signatures,
            TransactionEnvelopeView::EnvelopeTypeTxFeeBump(inner) => inner.signatures,
        }
    }

    /// The envelope with other signatures in place of its own.
    pub open spec fn with_signatures(self, signatures: Seq<DecoratedSignature>) -> Self {
        match self {
            TransactionEnvelopeView::EnvelopeTypeTx(inner) => {
                TransactionEnvelopeView::EnvelopeTypeTx(
                    TransactionV1EnvelopeView { tx: inner.tx, signatures },
                )
            },
            TransactionEnvelopeView::EnvelopeTypeTxFeeBump(inner) => {
                TransactionEnvelopeView::EnvelopeTypeTxFeeBump(
                    FeeBumpTransactionEnvelopeView { tx: inner.tx, signatures },
                )
            },
        }
    }

    /// The bytes that are signed for what the envelope carries.
    pub open spec fn signature_base(self, network_id: crate::xdr::types::Hash) -> Seq<u8> {
        match self {
            TransactionEnvelopeView::EnvelopeTypeTx(inner) => transaction_signature_base(
                network_id,
                inner.tx,
            ),
            TransactionEnvelopeView::EnvelopeTypeTxFeeBump(inner) => fee_bump_signature_base(
                network_id,
                inner.tx,
            ),
        }
    }
}

/// The decorated signature that `add_signature` appends.
pub open spec fn decorated(hint: SignatureHint, signature: Seq<u8>) -> DecoratedSignature {
    DecoratedSignature { hint, signature: LimitedString::<64>::holding(signature) }
}

/// What wrapping an envelope into a fee bump gives. An envelope that is a
/// fee bump already is refused before the fee source is looked at.
pub open spec fn fee_bump_of<T: IntoMuxedAccountId>(
    envelope: TransactionEnvelopeView,
    fee_source: T,
    fee: i64,
) -> Result<TransactionEnvelopeView, StellarSdkError> {
    match envelope {
        TransactionEnvelopeView::EnvelopeTypeTxFeeBump(_) => Err(
            StellarSdkError::CantWrapFeeBumpTransaction,
        ),
        TransactionEnvelopeView::EnvelopeTypeTx(inner_tx) => match fee_source.muxed_account_id() {
            Err(e) => Err(e),
            Ok(fee_source) => Ok(
                TransactionEnvelopeView::EnvelopeTypeTxFeeBump(
                    FeeBumpTransactionEnvelopeView {
                        tx: FeeBumpTransactionView {
                            fee_source,
                            fee,
                            inner_tx,
                            ext: TransactionExt::V0,
                        },
                        signatures: Seq::empty(),
                    },
                ),
            ),
        },
    }
}

impl TransactionEnvelope {
    /// The number of signatures that the envelope carries.
    pub fn signature_count(&self) -> (r: usize)
        ensures
            r == self@.signatures().len(),
    {
        match self {
            TransactionEnvelope::EnvelopeTypeTx(inner) => inner.signatures.len(),
            TransactionEnvelope::EnvelopeTypeTxFeeBump(inner) => inner.signatures.len(),
        }
    }

    /// The signatures that the envelope carries.
    pub fn signatures(&self) -> (r: &Vec<DecoratedSignature>)
        ensures
            r@ == self@.signatures(),
    {
        match self {
            TransactionEnvelope::EnvelopeTypeTx(inner) => &inner.signatures,
            TransactionEnvelope::EnvelopeTypeTxFeeBump(inner) => &inner.signatures,
        }
    }

    /// The bytes to sign for what the envelope carries.
    pub fn signature_base(&self, network_id: &crate::xdr::types::Hash) -> (r: Vec<u8>)
        requires
            self@.wf(),
        ensures
            r@ == self@.signature_base(*network_id),
    {
        match self {
            TransactionEnvelope::EnvelopeTypeTx(inner) => inner.tx.signature_base(network_id),
            TransactionEnvelope::EnvelopeTypeTxFeeBump(inner) => inner.tx.signature_base(
                network_id,
            ),
        }
    }

    /// Appends a signature of 64 bytes and the hint of its signer.
    ///
    /// Fails with `TooManySignatures` if the envelope carries 20 signatures
    /// already, and with `InvalidSignatureLength` if the signature does not
    /// have 64 bytes; the envelope is then left as it was. A hint that
    /// occurs already is no obstacle.
    pub fn add_signature(&mut self, hint: SignatureHint, signature: &[u8]) -> (r: Result<
        (),
        StellarSdkError,
    >)
        ensures
            match r {
                Ok(_) => {
                    &&& old(self)@.signatures().len() < MAX_SIGNATURES
                    &&& signature@.len() == SIGNATURE_LENGTH
                    &&& final(self)@ == old(self)@.with_signatures(
                        old(self)@.signatures().push(decorated(hint, signature@)),
                    )
                    &&& old(self)@.wf() ==> final(self)@.wf()
                },
                Err(StellarSdkError::TooManySignatures) => {
                    &&& old(self)@.signatures().len() >= MAX_SIGNATURES
                    &&& final(self)@ == old(self)@
                },
                Err(StellarSdkError::InvalidSignatureLength { found_length, expected_length }) => {
                    &&& old(self)@.signatures().len() < MAX_SIGNATURES
                    &&& signature@.len() != SIGNATURE_LENGTH
                    &&& found_length == signature@.len()
                    &&& expected_length == SIGNATURE_LENGTH
                    &&& final(self)@ == old(self)@
                },
                Err(_) => false,
            },
    {
        if self.signature_count() >= MAX_SIGNATURES as usize {
            return Err(StellarSdkError::TooManySignatures);
        }
        if signature.len() != SIGNATURE_LENGTH {
            return Err(
                StellarSdkError::InvalidSignatureLength {
                    found_length: signature.len(),
                    expected_length: SIGNATURE_LENGTH,
                },
            );
        }
        let signature = match LimitedString::<64>::new(signature) {
            Ok(signature) => signature,
            Err(_) => {
                return Err(
                    StellarSdkError::InvalidSignatureLength {
                        found_length: signature.len(),
                        expected_length: SIGNATURE_LENGTH,
                    },
                );
            },
        };
        let entry = DecoratedSignature { hint, signature };
        assert(entry.wf());
        match self {
            TransactionEnvelope::EnvelopeTypeTx(inner) => {
                inner.signatures.push(entry);
            },
            TransactionEnvelope::EnvelopeTypeTxFeeBump(inner) => {
                inner.signatures.push(entry);
            },
        }
        Ok(())
    }

    /// Appends a signature of the given key, once the caller has checked it.
    ///
    /// `verified` says whether the signature verifies under `public_key`
    /// for the bytes to sign. A signature that does not is refused with
    /// `PublicKeyCantVerify`; otherwise the signature is appended under the
    /// hint of the key, as `add_signature` does.
    pub fn add_verified_signature(
        &mut self,
        public_key: &PublicKey,
        signature: &[u8],
        verified: bool,
    ) -> (r: Result<(), StellarSdkError>)
        ensures
            match r {
                Ok(_) => {
                    &&& verified
                    &&& old(self)@.signatures().len() < MAX_SIGNATURES
                    &&& signature@.len() == SIGNATURE_LENGTH
                    &&& final(self)@ == old(self)@.with_signatures(
                        old(self)@.signatures().push(
                            decorated(crate::keys::hint_of(public_key.key()), signature@),
                        ),
                    )
                    &&& old(self)@.wf() ==> final(self)@.wf()
                },
                Err(StellarSdkError::PublicKeyCantVerify) => !verified && final(self)@ == old(
                    self,
                )@,
                Err(StellarSdkError::TooManySignatures) => {
                    &&& verified
                    &&& old(self)@.signatures().len() >= MAX_SIGNATURES
                    &&& final(self)@ == old(self)@
                },
                Err(StellarSdkError::InvalidSignatureLength { found_length, expected_length }) => {
                    &&& verified
                    &&& old(self)@.signatures().len() < MAX_SIGNATURES
                    &&& signature@.len() != SIGNATURE_LENGTH
                    &&& found_length == signature@.len()
                    &&& expected_length == SIGNATURE_LENGTH
                    &&& final(self)@ == old(self)@
                },
                Err(_) => false,
            },
    {
        if !verified {
            return Err(StellarSdkError::PublicKeyCantVerify);
        }
        self.add_signature(public_key.signature_hint(), signature)
    }

    /// Wraps the envelope of a transaction into a fee bump paid by
    /// `fee_source`. A fee bump cannot be wrapped again.
    pub fn wrap_fee_bump<T: IntoMuxedAccountId>(self, fee_source: T, fee: i64) -> (r: Result<
        TransactionEnvelope,
        StellarSdkError,
    >)
        ensures
            assembly_view(r) == fee_bump_of(self@, fee_source, fee),
            r matches Ok(envelope) ==> (self@.wf() ==> envelope@.wf()),
    {
        match self {
            TransactionEnvelope::EnvelopeTypeTxFeeBump(_) => Err(
                StellarSdkError::CantWrapFeeBumpTransaction,
            ),
            TransactionEnvelope::EnvelopeTypeTx(inner_tx) => {
                let fee_source = match fee_source.into_muxed_account_id() {
                    Ok(fee_source) => fee_source,
                    Err(e) => {
                        return Err(e);
                    },
                };
                Ok(
                    TransactionEnvelope::EnvelopeTypeTxFeeBump(
                        FeeBumpTransactionEnvelope {
                            tx: FeeBumpTransaction {
                                fee_source,
                                fee,
                                inner_tx,
                                ext: TransactionExt::V0,
                            },
                            signatures: Vec::new(),
                        },
                    ),
                )
            },
        }
    }
}

} // verus!

//! Fee bump transactions and the envelope, the outermost value on the wire.

use crate::error::XdrError;
use crate::xdr::array::{
    all_wf, array_xdr, lemma_parse_array_of_xdr, lemma_parse_array_sound, parse_array, read_array,
    write_array,
};
use crate::xdr::codec::{holds_at, lemma_holds_at_concat, lemma_subrange_join, u32_xdr, XdrCodec};
use crate::xdr::transaction::{
    read_view, TransactionV1Envelope, TransactionV1EnvelopeView, ENVELOPE_TYPE_TX,
    ENVELOPE_TYPE_TX_FEE_BUMP, MAX_SIGNATURES,
};
use crate::xdr::types::{DecoratedSignature, MuxedAccount, TransactionExt};
use vstd::prelude::*;

verus! {

/// A transaction wrapped by an account that pays a higher fee for it.
#[derive(Debug, Clone, PartialEq, Eq)]
pub struct FeeBumpTransaction {
    /// The account that pays the fee.
    pub fee_source: MuxedAccount,
    /// The fee it is willing to pay, in stroops.
    pub fee: i64,
    /// The signed transaction that is wrapped. On the wire its envelope tag precedes it.
    pub inner_tx: TransactionV1Envelope,
    /// Room for extensions.
    pub ext: TransactionExt,
}

/// A fee bump transaction with its lists as sequences.
pub struct FeeBumpTransactionView {
    /// The account that pays the fee.
    pub fee_source: MuxedAccount,
    /// The fee it is willing to pay, in stroops.
    pub fee: i64,
    /// The signed transaction that is wrapped.
    pub inner_tx: TransactionV1EnvelopeView,
    /// Room for extensions.
    pub ext: TransactionExt,
}

impl View for FeeBumpTransaction {
    type V = FeeBumpTransactionView;

    open spec fn view(&self) -> FeeBumpTransactionView {
        FeeBumpTransactionView {
            fee_source: self.fee_source,
            fee: self.fee,
            inner_tx: self.inner_tx@,
            ext: self.ext,
        }
    }
}

impl FeeBumpTransactionView {
    /// Whether every part respects the bounds of the wire format.
    pub open spec fn wf(self) -> bool {
        self.inner_tx.wf()
    }

    /// The encoding of the fee bump transaction.
    pub open spec fn xdr(self) -> Seq<u8> {
        (self.fee_source, self.fee).xdr() + (u32_xdr(ENVELOPE_TYPE_TX) + (self.inner_tx.xdr()
            + self.ext.xdr()))
    }

    /// Reading a fee bump transaction at `start`.
    pub open spec fn parse(input: Seq<u8>, start: usize) -> Result<
        (FeeBumpTransactionView, usize),
        XdrError,
    > {
        match <(MuxedAccount, i64)>::parse(input, start) {
            Err(e) => Err(e),
            Ok(((fee_source, fee), at_tag)) => match u32::parse(input, at_tag) {
                Err(e) => Err(e),
                Ok((tag, at_inner)) => if tag != ENVELOPE_TYPE_TX {
                    Err(XdrError::InvalidDiscriminator { at_position: at_tag, found: tag })
                } else {
                    match TransactionV1EnvelopeView::parse(input, at_inner) {
                        Err(e) => Err(e),
                        Ok((inner_tx, at_ext)) => match TransactionExt::parse(input, at_ext) {
                            Err(e) => Err(e),
                            Ok((ext, end)) => Ok(
                                (FeeBumpTransactionView { fee_source, fee, inner_tx, ext }, end),
                            ),
                        },
                    }
                },
            },
        }
    }

    /// A fee bump transaction that was written is read back.
    pub proof fn lemma_parse_of_xdr(self, input: Seq<u8>, start: usize)
        requires
            self.wf(),
            input.len() <= usize::MAX,
            holds_at(input, start as int, self.xdr()),
        ensures
            Self::parse(input, start) == Ok::<(FeeBumpTransactionView, usize), XdrError>(
                (self, (start + self.xdr().len()) as usize),
            ),
    {
        let front = (self.fee_source, self.fee).xdr();
        let tag = u32_xdr(ENVELOPE_TYPE_TX);
        let inner = self.inner_tx.xdr();
        let ext = self.ext.xdr();
        lemma_holds_at_concat(input, start as int, front, tag + (inner + ext));
        lemma_holds_at_concat(input, start + front.len(), tag, inner + ext);
        lemma_holds_at_concat(input, start + front.len() + 4, inner, ext);
        <(MuxedAccount, i64)>::lemma_parse_of_xdr((self.fee_source, self.fee), input, start);
        let at_tag = (start + front.len()) as usize;
        u32::lemma_parse_of_xdr(ENVELOPE_TYPE_TX, input, at_tag);
        let at_inner = (at_tag + 4) as usize;
        self.inner_tx.lemma_parse_of_xdr(input, at_inner);
        TransactionExt::lemma_parse_of_xdr(self.ext, input, (at_inner + inner.len()) as usize);
    }

    /// Whatever is read as a fee bump transaction was written exactly so.
    pub proof fn lemma_parse_sound(input: Seq<u8>, start: usize)
        requires
            start <= input.len() <= usize::MAX,
        ensures
            Self::parse(input, start) matches Ok((value, end)) ==> value.wf() && start <= end
                <= input.len() && input.subrange(start as int, end as int) == value.xdr(),
    {
        <(MuxedAccount, i64)>::lemma_parse_sound(input, start);
        if let Ok((front, at_tag)) = <(MuxedAccount, i64)>::parse(input, start) {
            u32::lemma_parse_sound(input, at_tag);
            if let Ok((tag, at_inner)) = u32::parse(input, at_tag) {
                TransactionV1EnvelopeView::lemma_parse_sound(input, at_inner);
                if let Ok((inner_tx, at_ext)) = TransactionV1EnvelopeView::parse(input, at_inner) {
                    TransactionExt::lemma_parse_sound(input, at_ext);
                    if let Ok((ext, end)) = TransactionExt::parse(input, at_ext) {
                        lemma_subrange_join(input, at_inner as int, at_ext as int, end as int);
                        lemma_subrange_join(input, at_tag as int, at_inner as int, end as int);
                        lemma_subrange_join(input, start as int, at_tag as int, end as int);
                    }
                }
            }
        }
    }
}

impl FeeBumpTransaction {
    /// Appends the encoding of the fee bump transaction to `out`.
    pub fn write_xdr(&self, out: &mut Vec<u8>)
        requires
            self@.wf(),
        ensures
            final(out)@ == old(out)@ + self@.xdr(),
    {
        self.fee_source.write_xdr(out);
        self.fee.write_xdr(out);
        let ghost before_tag = out@;
        assert(before_tag =~= old(out)@ + (self.fee_source, self.fee).xdr());
        ENVELOPE_TYPE_TX.write_xdr(out);
        let ghost before_inner = out@;
        self.inner_tx.write_xdr(out);
        let ghost before_ext = out@;
        self.ext.write_xdr(out);
        proof {
            let tail_inner = self@.inner_tx.xdr() + self.ext.xdr();
            assert(out@ =~= before_inner + tail_inner);
            let tail_tag = u32_xdr(ENVELOPE_TYPE_TX) + tail_inner;
            assert(out@ =~= before_tag + tail_tag);
            assert(out@ =~= old(out)@ + self@.xdr());
        }
    }

    /// Reads a fee bump transaction at `start`.
    pub fn read_xdr(input: &[u8], start: usize) -> (r: Result<
        (FeeBumpTransaction, usize),
        XdrError,
    >)
        requires
            start <= input@.len(),
        ensures
            read_view(r) == FeeBumpTransactionView::parse(input@, start),
    {
        let total = input.len();
        let ((fee_source, fee), at_tag) = match <(MuxedAccount, i64)>::read_xdr(input, start) {
            Ok(read) => read,
            Err(e) => {
                return Err(e);
            },
        };
        proof {
            <(MuxedAccount, i64)>::lemma_parse_sound(input@, start);
        }
        let (tag, at_inner) = match u32::read_xdr(input, at_tag) {
            Ok(read) => read,
            Err(e) => {
                return Err(e);
            },
        };
        if tag != ENVELOPE_TYPE_TX {
            return Err(XdrError::InvalidDiscriminator { at_position: at_tag, found: tag });
        }
        let (inner_tx, at_ext) = match TransactionV1Envelope::read_xdr(input, at_inner) {
            Ok(read) => read,
            Err(e) => {
                return Err(e);
            },
        };
        proof {
            TransactionV1EnvelopeView::lemma_parse_sound(input@, at_inner);
        }
        match TransactionExt::read_xdr(input, at_ext) {
            Ok((ext, end)) => Ok((FeeBumpTransaction { fee_source, fee, inner_tx, ext }, end)),
            Err(e) => Err(e),
        }
    }
}

/// A fee bump transaction together with the signatures collected for it.
#[derive(Debug, Clone, PartialEq, Eq)]
pub struct FeeBumpTransactionEnvelope {
    /// The fee bump transaction.
    pub tx: FeeBumpTransaction,
    /// The signatures, at most 20.
    pub signatures: Vec<DecoratedSignature>,
}

/// A signed fee bump transaction with its lists as sequences.
pub struct FeeBumpTransactionEnvelopeView {
    /// The fee bump transaction.
    pub tx: FeeBumpTransactionView,
    /// The signatures, in order.
    pub signatures: Seq<DecoratedSignature>,
}

impl View for FeeBumpTransactionEnvelope {
    type V = FeeBumpTransactionEnvelopeView;

    open spec fn view(&self) -> FeeBumpTransactionEnvelopeView {
        FeeBumpTransactionEnvelopeView { tx: self.tx@, signatures: self.signatures@ }
    }
}

impl FeeBumpTransactionEnvelopeView {
    /// Whether every part respects the bounds of the wire format.
    pub open spec fn wf(self) -> bool {
        &&& self.tx.wf()
        &&& all_wf(self.signatures)
        &&& self.signatures.len() <= MAX_SIGNATURES
    }

    /// The encoding of the signed fee bump transaction.
    pub open spec fn xdr(self) -> Seq<u8> {
        self.tx.xdr() + array_xdr(self.signatures)
    }

    /// Reading a signed fee bump transaction at `start`.
    pub open spec fn parse(input: Seq<u8>, start: usize) -> Result<
        (FeeBumpTransactionEnvelopeView, usize),
        XdrError,
    > {
        match FeeBumpTransactionView::parse(input, start) {
            Err(e) => Err(e),
            Ok((tx, at_signatures)) => match parse_array::<DecoratedSignature>(
                input,
                at_signatures,
                MAX_SIGNATURES,
            ) {
                Err(e) => Err(e),
                Ok((signatures, end)) => Ok(
                    (FeeBumpTransactionEnvelopeView { tx, signatures }, end),
                ),
            },
        }
    }

    /// A signed fee bump transaction that was written is read back.
    pub proof fn lemma_parse_of_xdr(self, input: Seq<u8>, start: usize)
        requires
            self.wf(),
            input.len() <= usize::MAX,
            holds_at(input, start as int, self.xdr()),
        ensures
            Self::parse(input, start) == Ok::<(FeeBumpTransactionEnvelopeView, usize), XdrError>(
                (self, (start + self.xdr().len()) as usize),
            ),
    {
        lemma_holds_at_concat(input, start as int, self.tx.xdr(), array_xdr(self.signatures));
        self.tx.lemma_parse_of_xdr(input, start);
        lemma_parse_array_of_xdr(
            self.signatures,
            input,
            (start + self.tx.xdr().len()) as usize,
            MAX_SIGNATURES,
        );
    }

    /// Whatever is read as a signed fee bump transaction was written exactly so.
    pub proof fn lemma_parse_sound(input: Seq<u8>, start: usize)
        requires
            start <= input.len() <= usize::MAX,
        ensures
            Self::parse(input, start) matches Ok((value, end)) ==> value.wf() && start <= end
                <= input.len() && input.subrange(start as int, end as int) == value.xdr(),
    {
        FeeBumpTransactionView::lemma_parse_sound(input, start);
        if let Ok((tx, at_signatures)) = FeeBumpTransactionView::parse(input, start) {
            lemma_parse_array_sound::<DecoratedSignature>(input, at_signatures, MAX_SIGNATURES);
            if let Ok((signatures, end)) = parse_array::<DecoratedSignature>(
                input,
                at_signatures,
                MAX_SIGNATURES,
            ) {
                lemma_subrange_join(input, start as int, at_signatures as int, end as int);
            }
        }
    }
}

impl FeeBumpTransactionEnvelope {
    /// Appends the encoding of the signed fee bump transaction to `out`.
    pub fn write_xdr(&self, out: &mut Vec<u8>)
        requires
            self@.wf(),
        ensures
            final(out)@ == old(out)@ + self@.xdr(),
    {
        self.tx.write_xdr(out);
        write_array(&self.signatures, out);
        assert(out@ =~= old(out)@ + self@.xdr());
    }

    /// Reads a signed fee bump transaction at `start`.
    pub fn read_xdr(input: &[u8], start: usize) -> (r: Result<
        (FeeBumpTransactionEnvelope, usize),
        XdrError,
    >)
        requires
            start <= input@.len(),
        ensures
            read_view(r) == FeeBumpTransactionEnvelopeView::parse(input@, start),
    {
        let total = input.len();
        let (tx, at_signatures) = match FeeBumpTransaction::read_xdr(input, start) {
            Ok(read) => read,
            Err(e) => {
                return Err(e);
            },
        };
        proof {
            FeeBumpTransactionView::lemma_parse_sound(input@, start);
        }
        match read_array::<DecoratedSignature>(input, at_signatures, MAX_SIGNATURES) {
            Ok((signatures, end)) => Ok((FeeBumpTransactionEnvelope { tx, signatures }, end)),
            Err(e) => Err(e),
        }
    }
}

/// What travels on the wire: a signed transaction, plain or fee-bumped.
#[derive(Debug, Clone, PartialEq, Eq)]
pub enum TransactionEnvelope {
    /// A signed transaction.
    EnvelopeTypeTx(TransactionV1Envelope),
    /// A signed fee bump transaction.
    EnvelopeTypeTxFeeBump(FeeBumpTransactionEnvelope),
}

/// An envelope with its lists as sequences.
pub enum TransactionEnvelopeView {
    /// A signed transaction.
    EnvelopeTypeTx(TransactionV1EnvelopeView),
    /// A signed fee bump transaction.
    EnvelopeTypeTxFeeBump(FeeBumpTransactionEnvelopeView),
}

impl View for TransactionEnvelope {
    type V = TransactionEnvelopeView;

    open spec fn view(&self) -> TransactionEnvelopeView {
        match self {
            TransactionEnvelope::EnvelopeTypeTx(inner) => TransactionEnvelopeView::EnvelopeTypeTx(
                inner@,
            ),
            TransactionEnvelope::EnvelopeTypeTxFeeBump(inner) => {
                TransactionEnvelopeView::EnvelopeTypeTxFeeBump(inner@)
            },
        }
    }
}

impl TransactionEnvelopeView {
    /// Whether every part respects the bounds of the wire format.
    pub open spec fn wf(self) -> bool {
        match self {
            TransactionEnvelopeView::EnvelopeTypeTx(inner) => inner.wf(),
            TransactionEnvelopeView::EnvelopeTypeTxFeeBump(inner) => inner.wf(),
        }
    }

    /// The encoding of the envelope: its tag and what it carries.
    pub open spec fn xdr(self) -> Seq<u8> {
        match self {
            TransactionEnvelopeView::EnvelopeTypeTx(inner) => u32_xdr(ENVELOPE_TYPE_TX)
                + inner.xdr(),
            TransactionEnvelopeView::EnvelopeTypeTxFeeBump(inner) => u32_xdr(
                ENVELOPE_TYPE_TX_FEE_BUMP,
            ) + inner.xdr(),
        }
    }

    /// Reading an envelope at `start`.
    pub open spec fn parse(input: Seq<u8>, start: usize) -> Result<
        (TransactionEnvelopeView, usize),
        XdrError,
    > {
        match u32::parse(input, start) {
            Err(e) => Err(e),
            Ok((tag, next)) => if tag == ENVELOPE_TYPE_TX {
                match TransactionV1EnvelopeView::parse(input, next) {
                    Ok((inner, end)) => Ok((TransactionEnvelopeView::EnvelopeTypeTx(inner), end)),
                    Err(e) => Err(e),
                }
            } else if tag == ENVELOPE_TYPE_TX_FEE_BUMP {
                match FeeBumpTransactionEnvelopeView::parse(input, next) {
                    Ok((inner, end)) => Ok(
                        (TransactionEnvelopeView::EnvelopeTypeTxFeeBump(inner), end),
                    ),
                    Err(e) => Err(e),
                }
            } else {
                Err(XdrError::InvalidDiscriminator { at_position: start, found: tag })
            },
        }
    }

    /// What reading a whole input as one envelope gives.
    pub open spec fn parse_all(input: Seq<u8>) -> Result<TransactionEnvelopeView, XdrError> {
        match Self::parse(input, 0) {
            Err(e) => Err(e),
            Ok((value, end)) => if end == input.len() {
                Ok(value)
            } else {
                Err(
                    XdrError::TypeEndsTooEarly {
                        remaining_no_of_bytes: (input.len() - end) as usize,
                    },
                )
            },
        }
    }

    /// An envelope that was written is read back.
    pub proof fn lemma_parse_of_xdr(self, input: Seq<u8>, start: usize)
        requires
            self.wf(),
            input.len() <= usize::MAX,
            holds_at(input, start as int, self.xdr()),
        ensures
            Self::parse(input, start) == Ok::<(TransactionEnvelopeView, usize), XdrError>(
                (self, (start + self.xdr().len()) as usize),
            ),
    {
        match self {
            TransactionEnvelopeView::EnvelopeTypeTx(inner) => {
                lemma_holds_at_concat(input, start as int, u32_xdr(ENVELOPE_TYPE_TX), inner.xdr());
                u32::lemma_parse_of_xdr(ENVELOPE_TYPE_TX, input, start);
                inner.lemma_parse_of_xdr(input, (start + 4) as usize);
            },
            TransactionEnvelopeView::EnvelopeTypeTxFeeBump(inner) => {
                lemma_holds_at_concat(
                    input,
                    start as int,
                    u32_xdr(ENVELOPE_TYPE_TX_FEE_BUMP),
                    inner.xdr(),
                );
                u32::lemma_parse_of_xdr(ENVELOPE_TYPE_TX_FEE_BUMP, input, start);
                inner.lemma_parse_of_xdr(input, (start + 4) as usize);
            },
        }
    }

    /// Whatever is read as an envelope was written exactly so.
    pub proof fn lemma_parse_sound(input: Seq<u8>, start: usize)
        requires
            start <= input.len() <= usize::MAX,
        ensures
            Self::parse(input, start) matches Ok((value, end)) ==> value.wf() && start <= end
                <= input.len() && input.subrange(start as int, end as int) == value.xdr(),
    {
        u32::lemma_parse_sound(input, start);
        if let Ok((tag, next)) = u32::parse(input, start) {
            if tag == ENVELOPE_TYPE_TX {
                TransactionV1EnvelopeView::lemma_parse_sound(input, next);
                if let Ok((inner, end)) = TransactionV1EnvelopeView::parse(input, next) {
                    lemma_subrange_join(input, start as int, next as int, end as int);
                }
            } else if tag == ENVELOPE_TYPE_TX_FEE_BUMP {
                FeeBumpTransactionEnvelopeView::lemma_parse_sound(input, next);
                if let Ok((inner, end)) = FeeBumpTransactionEnvelopeView::parse(input, next) {
                    lemma_subrange_join(input, start as int, next as int, end as int);
                }
            }
        }
    }

    /// Reading the encoding of an envelope gives the envelope back.
    pub proof fn lemma_decode_of_encode(self)
        requires
            self.wf(),
            self.xdr().len() <= usize::MAX,
        ensures
            Self::parse_all(self.xdr()) == Ok::<TransactionEnvelopeView, XdrError>(self),
    {
        let input = self.xdr();
        assert(input.subrange(0, input.len() as int) =~= input);
        self.lemma_parse_of_xdr(input, 0);
    }

    /// An input is accepted only if it is the encoding of the envelope read
    /// from it: no other byte sequence stands for that envelope.
    pub proof fn lemma_decoded_is_canonical(input: Seq<u8>)
        requires
            input.len() <= usize::MAX,
        ensures
            Self::parse_all(input) matches Ok(value) ==> value.wf() && value.xdr() == input,
            Self::parse_all(input) is Err ==> forall|value: TransactionEnvelopeView|
                value.wf() ==> #[trigger] value.xdr() != input,
    {
        Self::lemma_parse_sound(input, 0);
        assert(input.subrange(0, input.len() as int) =~= input);
        if Self::parse_all(input) is Err {
            assert forall|value: TransactionEnvelopeView| value.wf() implies #[trigger] value.xdr()
                != input by {
                if value.xdr() == input {
                    value.lemma_decode_of_encode();
                }
            }
        }
    }
}

/// The result of reading a whole input, with the value taken by its view.
pub open spec fn whole_view<T: View>(r: Result<T, XdrError>) -> Result<T::V, XdrError> {
    match r {
        Ok(value) => Ok(value@),
        Err(e) => Err(e),
    }
}

impl TransactionEnvelope {
    /// Appends the encoding of the envelope to `out`.
    pub fn write_xdr(&self, out: &mut Vec<u8>)
        requires
            self@.wf(),
        ensures
            final(out)@ == old(out)@ + self@.xdr(),
    {
        match self {
            TransactionEnvelope::EnvelopeTypeTx(inner) => {
                ENVELOPE_TYPE_TX.write_xdr(out);
                inner.write_xdr(out);
                assert(out@ =~= old(out)@ + (u32_xdr(ENVELOPE_TYPE_TX) + inner@.xdr()));
            },
            TransactionEnvelope::EnvelopeTypeTxFeeBump(inner) => {
                ENVELOPE_TYPE_TX_FEE_BUMP.write_xdr(out);
                inner.write_xdr(out);
                assert(out@ =~= old(out)@ + (u32_xdr(ENVELOPE_TYPE_TX_FEE_BUMP) + inner@.xdr()));
            },
        }
    }

    /// Reads an envelope at `start`.
    pub fn read_xdr(input: &[u8], start: usize) -> (r: Result<
        (TransactionEnvelope, usize),
        XdrError,
    >)
        requires
            start <= input@.len(),
        ensures
            read_view(r) == TransactionEnvelopeView::parse(input@, start),
    {
        let (tag, next) = match u32::read_xdr(input, start) {
            Ok(read) => read,
            Err(e) => {
                return Err(e);
            },
        };
        if tag == ENVELOPE_TYPE_TX {
            match TransactionV1Envelope::read_xdr(input, next) {
                Ok((inner, end)) => Ok((TransactionEnvelope::EnvelopeTypeTx(inner), end)),
                Err(e) => Err(e),
            }
        } else if tag == ENVELOPE_TYPE_TX_FEE_BUMP {
            match FeeBumpTransactionEnvelope::read_xdr(input, next) {
                Ok((inner, end)) => Ok((TransactionEnvelope::EnvelopeTypeTxFeeBump(inner), end)),
                Err(e) => Err(e),
            }
        } else {
            Err(XdrError::InvalidDiscriminator { at_position: start, found: tag })
        }
    }

    /// The encoding of the envelope.
    pub fn to_xdr(&self) -> (r: Vec<u8>)
        requires
            self@.wf(),
        ensures
            r@ == self@.xdr(),
    {
        let mut out: Vec<u8> = Vec::new();
        self.write_xdr(&mut out);
        assert(out@ =~= self@.xdr());
        out
    }

    /// Reads `input` as exactly one envelope. The input is accepted if and
    /// only if it is the encoding of a well-formed envelope, and that
    /// envelope is returned.
    pub fn from_xdr(input: &[u8]) -> (r: Result<TransactionEnvelope, XdrError>)
        ensures
            whole_view(r) == TransactionEnvelopeView::parse_all(input@),
            r matches Ok(value) ==> value@.wf() && value@.xdr() == input@,
            r is Err ==> forall|value: TransactionEnvelopeView|
                value.wf() ==> #[trigger] value.xdr() != input@,
    {
        let total = input.len();
        proof {
            TransactionEnvelopeView::lemma_decoded_is_canonical(input@);
        }
        match Self::read_xdr(input, 0) {
            Err(e) => Err(e),
            Ok((value, end)) => {
                proof {
                    TransactionEnvelopeView::lemma_parse_sound(input@, 0);
                }
                if end == total {
                    Ok(value)
                } else {
                    Err(XdrError::TypeEndsTooEarly { remaining_no_of_bytes: total - end })
                }
            },
        }
    }
}

} // verus!

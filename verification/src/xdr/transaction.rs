//! Transactions and the envelopes that carry them together with signatures.
//!
//! These values hold lists, so their contracts speak of a view of each value
//! in which a list is a mathematical sequence.

use crate::error::XdrError;
use crate::xdr::array::{
    all_wf, array_xdr, lemma_parse_array_of_xdr, lemma_parse_array_sound, parse_array, read_array,
    write_array,
};
use crate::xdr::codec::{holds_at, lemma_holds_at_concat, lemma_subrange_join, XdrCodec};
use crate::xdr::operation::Operation;
use crate::xdr::types::{DecoratedSignature, Memo, MuxedAccount, TimeBounds, TransactionExt};
use vstd::prelude::*;

verus! {

/// The largest number of operations in a transaction.
pub const MAX_OPERATIONS: u32 = 100;

/// The largest number of signatures in an envelope.
pub const MAX_SIGNATURES: u32 = 20;

/// The tag of an envelope that carries a transaction.
pub const ENVELOPE_TYPE_TX: u32 = 2;

/// The tag of an envelope that carries a fee bump transaction.
pub const ENVELOPE_TYPE_TX_FEE_BUMP: u32 = 5;

/// The result of reading a value that has a view, with the value taken by its view.
pub open spec fn read_view<T: View>(r: Result<(T, usize), XdrError>) -> Result<
    (T::V, usize),
    XdrError,
> {
    match r {
        Ok((value, end)) => Ok((value@, end)),
        Err(e) => Err(e),
    }
}

/// The fields of a transaction that stand before its operations.
pub type TransactionHeader = (MuxedAccount, (u32, (i64, (Option<TimeBounds>, Memo))));

/// A transaction: a list of operations that are applied together or not at all.
#[derive(Debug, Clone, PartialEq, Eq)]
pub struct Transaction {
    /// The account that pays the fee and whose sequence number is used.
    pub source_account: MuxedAccount,
    /// The largest fee the source account is willing to pay, in stroops.
    pub fee: u32,
    /// The sequence number of the source account for this transaction.
    pub seq_num: i64,
    /// The period in which the transaction is valid.
    pub time_bounds: Option<TimeBounds>,
    /// A note.
    pub memo: Memo,
    /// The operations, between 1 and 100 of them.
    pub operations: Vec<Operation>,
    /// Room for extensions.
    pub ext: TransactionExt,
}

/// A transaction with its operations as a sequence.
pub struct TransactionView {
    /// The account that pays the fee and whose sequence number is used.
    pub source_account: MuxedAccount,
    /// The largest fee the source account is willing to pay, in stroops.
    pub fee: u32,
    /// The sequence number of the source account for this transaction.
    pub seq_num: i64,
    /// The period in which the transaction is valid.
    pub time_bounds: Option<TimeBounds>,
    /// A note.
    pub memo: Memo,
    /// The operations, in order.
    pub operations: Seq<Operation>,
    /// Room for extensions.
    pub ext: TransactionExt,
}

impl View for Transaction {
    type V = TransactionView;

    open spec fn view(&self) -> TransactionView {
        TransactionView {
            source_account: self.source_account,
            fee: self.fee,
            seq_num: self.seq_num,
            time_bounds: self.time_bounds,
            memo: self.memo,
            operations: self.operations@,
            ext: self.ext,
        }
    }
}

impl TransactionView {
    /// The fields that stand before the operations.
    pub open spec fn header(self) -> TransactionHeader {
        (self.source_account, (self.fee, (self.seq_num, (self.time_bounds, self.memo))))
    }

    /// Whether every part respects the bounds of the wire format.
    pub open spec fn wf(self) -> bool {
        &&& self.header().wf()
        &&& all_wf(self.operations)
        &&& self.operations.len() <= MAX_OPERATIONS
    }

    /// The encoding of the transaction.
    pub open spec fn xdr(self) -> Seq<u8> {
        self.header().xdr() + (array_xdr(self.operations) + self.ext.xdr())
    }

    /// Reading a transaction at `start`.
    pub open spec fn parse(input: Seq<u8>, start: usize) -> Result<
        (TransactionView, usize),
        XdrError,
    > {
        match <TransactionHeader>::parse(input, start) {
            Err(e) => Err(e),
            Ok((header, at_operations)) => match parse_array::<Operation>(
                input,
                at_operations,
                MAX_OPERATIONS,
            ) {
                Err(e) => Err(e),
                Ok((operations, at_ext)) => match TransactionExt::parse(input, at_ext) {
                    Err(e) => Err(e),
                    Ok((ext, end)) => {
                        let (source_account, (fee, (seq_num, (time_bounds, memo)))) = header;
                        Ok(
                            (
                                TransactionView {
                                    source_account,
                                    fee,
                                    seq_num,
                                    time_bounds,
                                    memo,
                                    operations,
                                    ext,
                                },
                                end,
                            ),
                        )
                    },
                },
            },
        }
    }

    /// A transaction that was written is read back.
    pub proof fn lemma_parse_of_xdr(self, input: Seq<u8>, start: usize)
        requires
            self.wf(),
            input.len() <= usize::MAX,
            holds_at(input, start as int, self.xdr()),
        ensures
            Self::parse(input, start) == Ok::<(TransactionView, usize), XdrError>(
                (self, (start + self.xdr().len()) as usize),
            ),
    {
        let header = self.header().xdr();
        let operations = array_xdr(self.operations);
        let ext = self.ext.xdr();
        lemma_holds_at_concat(input, start as int, header, operations + ext);
        lemma_holds_at_concat(input, start + header.len(), operations, ext);
        <TransactionHeader>::lemma_parse_of_xdr(self.header(), input, start);
        let at_operations = (start + header.len()) as usize;
        lemma_parse_array_of_xdr(self.operations, input, at_operations, MAX_OPERATIONS);
        let at_ext = (at_operations + operations.len()) as usize;
        TransactionExt::lemma_parse_of_xdr(self.ext, input, at_ext);
    }

    /// Whatever is read as a transaction was written exactly so.
    pub proof fn lemma_parse_sound(input: Seq<u8>, start: usize)
        requires
            start <= input.len() <= usize::MAX,
        ensures
            Self::parse(input, start) matches Ok((value, end)) ==> value.wf() && start <= end
                <= input.len() && input.subrange(start as int, end as int) == value.xdr(),
    {
        <TransactionHeader>::lemma_parse_sound(input, start);
        if let Ok((header, at_operations)) = <TransactionHeader>::parse(input, start) {
            lemma_parse_array_sound::<Operation>(input, at_operations, MAX_OPERATIONS);
            if let Ok((operations, at_ext)) = parse_array::<Operation>(
                input,
                at_operations,
                MAX_OPERATIONS,
            ) {
                TransactionExt::lemma_parse_sound(input, at_ext);
                if let Ok((ext, end)) = TransactionExt::parse(input, at_ext) {
                    lemma_subrange_join(input, at_operations as int, at_ext as int, end as int);
                    lemma_subrange_join(input, start as int, at_operations as int, end as int);
                }
            }
        }
    }
}

impl Transaction {
    /// Appends the encoding of the transaction to `out`.
    pub fn write_xdr(&self, out: &mut Vec<u8>)
        requires
            self@.wf(),
        ensures
            final(out)@ == old(out)@ + self@.xdr(),
    {
        self.source_account.write_xdr(out);
        let ghost before_fee = out@;
        self.fee.write_xdr(out);
        let ghost before_seq_num = out@;
        self.seq_num.write_xdr(out);
        let ghost before_time_bounds = out@;
        self.time_bounds.write_xdr(out);
        self.memo.write_xdr(out);
        let ghost before_operations = out@;
        proof {
            let tail_time_bounds = self.time_bounds.xdr() + self.memo.xdr();
            assert(out@ =~= before_time_bounds + tail_time_bounds);
            let tail_seq_num = self.seq_num.xdr() + tail_time_bounds;
            assert(out@ =~= before_seq_num + tail_seq_num);
            let tail_fee = self.fee.xdr() + tail_seq_num;
            assert(out@ =~= before_fee + tail_fee);
            assert(out@ =~= old(out)@ + self@.header().xdr());
        }
        write_array(&self.operations, out);
        self.ext.write_xdr(out);
        assert(out@ =~= old(out)@ + self@.xdr());
    }

    /// Reads a transaction at `start`.
    pub fn read_xdr(input: &[u8], start: usize) -> (r: Result<(Transaction, usize), XdrError>)
        requires
            start <= input@.len(),
        ensures
            read_view(r) == TransactionView::parse(input@, start),
    {
        let total = input.len();
        let (header, at_operations) = match <TransactionHeader>::read_xdr(input, start) {
            Ok(read) => read,
            Err(e) => {
                return Err(e);
            },
        };
        proof {
            <TransactionHeader>::lemma_parse_sound(input@, start);
        }
        let (operations, at_ext) = match read_array::<Operation>(
            input,
            at_operations,
            MAX_OPERATIONS,
        ) {
            Ok(read) => read,
            Err(e) => {
                return Err(e);
            },
        };
        proof {
            lemma_parse_array_sound::<Operation>(input@, at_operations, MAX_OPERATIONS);
        }
        let (ext, end) = match TransactionExt::read_xdr(input, at_ext) {
            Ok(read) => read,
            Err(e) => {
                return Err(e);
            },
        };
        let (source_account, (fee, (seq_num, (time_bounds, memo)))) = header;
        Ok((Transaction { source_account, fee, seq_num, time_bounds, memo, operations, ext }, end))
    }
}

/// A transaction together with the signatures collected for it.
#[derive(Debug, Clone, PartialEq, Eq)]
pub struct TransactionV1Envelope {
    /// The transaction.
    pub tx: Transaction,
    /// The signatures, at most 20.
    pub signatures: Vec<DecoratedSignature>,
}

/// A signed transaction with its lists as sequences.
pub struct TransactionV1EnvelopeView {
    /// The transaction.
    pub tx: TransactionView,
    /// The signatures, in order.
    pub signatures: Seq<DecoratedSignature>,
}

impl View for TransactionV1Envelope {
    type V = TransactionV1EnvelopeView;

    open spec fn view(&self) -> TransactionV1EnvelopeView {
        TransactionV1EnvelopeView { tx: self.tx@, signatures: self.signatures@ }
    }
}

impl TransactionV1EnvelopeView {
    /// Whether every part respects the bounds of the wire format.
    pub open spec fn wf(self) -> bool {
        &&& self.tx.wf()
        &&& all_wf(self.signatures)
        &&& self.signatures.len() <= MAX_SIGNATURES
    }

    /// The encoding of the signed transaction.
    pub open spec fn xdr(self) -> Seq<u8> {
        self.tx.xdr() + array_xdr(self.signatures)
    }

    /// Reading a signed transaction at `start`.
    pub open spec fn parse(input: Seq<u8>, start: usize) -> Result<
        (TransactionV1EnvelopeView, usize),
        XdrError,
    > {
        match TransactionView::parse(input, start) {
            Err(e) => Err(e),
            Ok((tx, at_signatures)) => match parse_array::<DecoratedSignature>(
                input,
                at_signatures,
                MAX_SIGNATURES,
            ) {
                Err(e) => Err(e),
                Ok((signatures, end)) => Ok((TransactionV1EnvelopeView { tx, signatures }, end)),
            },
        }
    }

    /// A signed transaction that was written is read back.
    pub proof fn lemma_parse_of_xdr(self, input: Seq<u8>, start: usize)
        requires
            self.wf(),
            input.len() <= usize::MAX,
            holds_at(input, start as int, self.xdr()),
        ensures
            Self::parse(input, start) == Ok::<(TransactionV1EnvelopeView, usize), XdrError>(
                (self, (start + self.xdr().len()) as usize),
            ),
    {
        lemma_holds_at_concat(input, start as int, self.tx.xdr(), array_xdr(self.signatures));
        self.tx.lemma_parse_of_xdr(input, start);
        lemma_parse_array_of_xdr(
            self.signatures,
            input,
            (start + self.tx.xdr().len()) as usize,
            MAX_SIGNATURES,
        );
    }

    /// Whatever is read as a signed transaction was written exactly so.
    pub proof fn lemma_parse_sound(input: Seq<u8>, start: usize)
        requires
            start <= input.len() <= usize::MAX,
        ensures
            Self::parse(input, start) matches Ok((value, end)) ==> value.wf() && start <= end
                <= input.len() && input.subrange(start as int, end as int) == value.xdr(),
    {
        TransactionView::lemma_parse_sound(input, start);
        if let Ok((tx, at_signatures)) = TransactionView::parse(input, start) {
            lemma_parse_array_sound::<DecoratedSignature>(input, at_signatures, MAX_SIGNATURES);
            if let Ok((signatures, end)) = parse_array::<DecoratedSignature>(
                input,
                at_signatures,
                MAX_SIGNATURES,
            ) {
                lemma_subrange_join(input, start as int, at_signatures as int, end as int);
            }
        }
    }
}

impl TransactionV1Envelope {
    /// Appends the encoding of the signed transaction to `out`.
    pub fn write_xdr(&self, out: &mut Vec<u8>)
        requires
            self@.wf(),
        ensures
            final(out)@ == old(out)@ + self@.xdr(),
    {
        self.tx.write_xdr(out);
        write_array(&self.signatures, out);
        assert(out@ =~= old(out)@ + self@.xdr());
    }

    /// Reads a signed transaction at `start`.
    pub fn read_xdr(input: &[u8], start: usize) -> (r: Result<
        (TransactionV1Envelope, usize),
        XdrError,
    >)
        requires
            start <= input@.len(),
        ensures
            read_view(r) == TransactionV1EnvelopeView::parse(input@, start),
    {
        let total = input.len();
        let (tx, at_signatures) = match Transaction::read_xdr(input, start) {
            Ok(read) => read,
            Err(e) => {
                return Err(e);
            },
        };
        proof {
            TransactionView::lemma_parse_sound(input@, start);
        }
        match read_array::<DecoratedSignature>(input, at_signatures, MAX_SIGNATURES) {
            Ok((signatures, end)) => Ok((TransactionV1Envelope { tx, signatures }, end)),
            Err(e) => Err(e),
        }
    }
}

} // verus!

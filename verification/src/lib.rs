//! Construction, binary encoding and key handling for Stellar transactions.
//!
//! Every function in this crate carries a contract that is checked by Verus.
//! The contracts are stated over the wire format itself: what a value encodes
//! to, and which inputs a decoder accepts.
//!
//! - [`xdr`] holds the binary codec and the protocol's types.
//! - [`base32`], [`crc`] and [`key_encoding`] make up the textual form of keys;
//!   [`keys`] applies it to accounts and signers.
//! - [`amount`], [`price`], [`asset`] and [`memo`] build the values that
//!   operations are made of, [`operations`] the operations themselves.
//! - [`transaction`] assembles transactions and envelopes, [`signatures`]
//!   accounts for the weights of their signatures, and [`validity`] states the
//!   rules that the wire format cannot express.
//! - [`horizon`] holds the decisions of a client of the indexing service.

pub mod amount;
pub mod asset;
pub mod base32;
pub mod base64_xdr;
pub mod binary;
pub mod bytes;
pub mod claimable_balance_id;
pub mod crc;
pub mod error;
pub mod horizon;
pub mod key_encoding;
pub mod keys;
pub mod memo;
pub mod operations;
pub mod price;
pub mod signatures;
pub mod transaction;
pub mod validity;
pub mod xdr;

pub use crate::amount::{IntoAmount, StroopAmount};
pub use crate::binary::AsBinary;
pub use crate::claimable_balance_id::IntoClaimbleBalanceId;
pub use crate::error::{StellarSdkError, XdrError};
pub use crate::horizon::FetchError;
pub use crate::keys::{IntoAccountId, IntoMuxedAccountId};
pub use crate::operations::manage_data::AsDataValue;
pub use crate::signatures::WeightReport;
pub use crate::xdr::codec::XdrCodec;
pub use crate::xdr::envelope::TransactionEnvelope;
pub use crate::xdr::opaque::LimitedString;
pub use crate::xdr::operation::{Operation, OperationBody};
pub use crate::xdr::transaction::Transaction;
pub use crate::xdr::types::{
    AccountId, Asset, ClaimableBalanceId, DecoratedSignature, Memo, MuxedAccount, Price, PublicKey,
    Signer, SignerKey, TimeBounds,
};

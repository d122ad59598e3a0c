//! Ways to name a claimable balance.

use crate::binary::AsBinary;
use crate::error::StellarSdkError;
use crate::xdr::codec::{parse_all, XdrCodec};
use crate::xdr::types::ClaimableBalanceId;
use vstd::prelude::*;

verus! {

/// Anything that names a claimable balance.
pub trait IntoClaimbleBalanceId: Sized {
    /// The id that the value names, if it names one.
    spec fn claimable_balance_id(&self) -> Option<ClaimableBalanceId>;

    /// Converts the value into the id of a claimable balance.
    fn into_claimable_balance_id(self) -> (r: Result<ClaimableBalanceId, StellarSdkError>)
        ensures
            r matches Ok(id) ==> self.claimable_balance_id() == Some(id),
            r is Err ==> self.claimable_balance_id() is None,
    ;
}

impl IntoClaimbleBalanceId for ClaimableBalanceId {
    open spec fn claimable_balance_id(&self) -> Option<ClaimableBalanceId> {
        Some(*self)
    }

    fn into_claimable_balance_id(self) -> (r: Result<ClaimableBalanceId, StellarSdkError>) {
        Ok(self)
    }
}

impl IntoClaimbleBalanceId for AsBinary {
    /// The id whose binary encoding, 36 bytes, the value holds.
    open spec fn claimable_balance_id(&self) -> Option<ClaimableBalanceId> {
        match self.bytes() {
            Some(bytes) => if bytes.len() == 36 {
                match parse_all::<ClaimableBalanceId>(bytes) {
                    Ok(id) => Some(id),
                    Err(_) => None,
                }
            } else {
                None
            },
            None => None,
        }
    }

    fn into_claimable_balance_id(self) -> (r: Result<ClaimableBalanceId, StellarSdkError>)
        ensures
            match r {
                Ok(_) => true,
                Err(StellarSdkError::InvalidHexEncoding(_)) => self.bytes() is None,
                Err(StellarSdkError::InvalidBinaryLength { found_length, expected_length }) => {
                    &&& self.bytes() matches Some(bytes)
                    &&& bytes.len() != 36
                    &&& found_length == bytes.len()
                    &&& expected_length == 36
                },
                Err(StellarSdkError::InvalidBalanceId) => {
                    &&& self.bytes() matches Some(bytes)
                    &&& bytes.len() == 36
                },
                Err(_) => false,
            },
    {
        let balance_id: [u8; 36] = match self.as_binary::<36>() {
            Ok(balance_id) => balance_id,
            Err(e) => {
                return Err(e);
            },
        };
        match ClaimableBalanceId::from_xdr(balance_id.as_slice()) {
            Ok(id) => Ok(id),
            Err(_) => Err(StellarSdkError::InvalidBalanceId),
        }
    }
}

} // verus!

//! The operation that authorizes the holder of a trust line.

use crate::asset::{check_asset_code, code_error};
use crate::bytes::{array_of, padded_array};
use crate::error::StellarSdkError;
use crate::keys::{IntoAccountId, IntoMuxedAccountId};
use crate::operations::source::{convert_source, optional_source};
use crate::validity::{lemma_stored_code_is_valid, valid_operation};
use crate::xdr::operation::{AllowTrustOp, Operation, OperationBody};
use crate::xdr::types::AssetCode;
use vstd::prelude::*;

verus! {

/// The largest value of the authorization of a trust line.
pub const MAX_AUTHORIZE_FLAG: u32 = 2;

/// The stored form of an asset code, the shorter form where the code fits it.
pub open spec fn stored_code(code: Seq<u8>) -> AssetCode {
    if code.len() <= 4 {
        AssetCode::AssetTypeCreditAlphanum4(array_of::<4>(code))
    } else {
        AssetCode::AssetTypeCreditAlphanum12(array_of::<12>(code))
    }
}

/// The operation that sets the authorization of `trustor` for the asset
/// with the given code. The source account is checked first, then the
/// trustor, then the code, then the authorization, which must be 0, 1 or 2.
pub open spec fn allow_trust<T: IntoMuxedAccountId, S: IntoAccountId>(
    source_account: Option<T>,
    trustor: S,
    asset_code: Seq<u8>,
    authorize: u32,
) -> Result<Operation, StellarSdkError> {
    match optional_source(source_account) {
        Err(e) => Err(e),
        Ok(source_account) => match trustor.account_id() {
            Err(e) => Err(e),
            Ok(trustor) => match code_error(asset_code, 12) {
                Some(e) => Err(e),
                None => if authorize > MAX_AUTHORIZE_FLAG {
                    Err(StellarSdkError::InvalidAuthorizeFlag)
                } else {
                    Ok(
                        Operation {
                            source_account,
                            body: OperationBody::AllowTrust(
                                AllowTrustOp { trustor, asset: stored_code(asset_code), authorize },
                            ),
                        },
                    )
                },
            },
        },
    }
}

impl Operation {
    /// Sets how far the holder of a trust line is authorized: not at all
    /// (0), fully (1), or to keep liabilities only (2).
    pub fn new_allow_trust<T: IntoMuxedAccountId, S: IntoAccountId>(
        source_account: Option<T>,
        trustor: S,
        asset_code: &[u8],
        authorize: u32,
    ) -> (r: Result<Operation, StellarSdkError>)
        ensures
            r == allow_trust(source_account, trustor, asset_code@, authorize),
            r matches Ok(operation) ==> valid_operation(operation),
    {
        let source_account = match convert_source(source_account) {
            Ok(source_account) => source_account,
            Err(e) => {
                return Err(e);
            },
        };
        let trustor = match trustor.into_account_id() {
            Ok(trustor) => trustor,
            Err(e) => {
                return Err(e);
            },
        };
        match check_asset_code(asset_code, 12) {
            Ok(_) => {},
            Err(e) => {
                return Err(e);
            },
        }
        if authorize > MAX_AUTHORIZE_FLAG {
            return Err(StellarSdkError::InvalidAuthorizeFlag);
        }
        let asset = if asset_code.len() <= 4 {
            proof {
                lemma_stored_code_is_valid::<4>(asset_code@);
            }
            AssetCode::AssetTypeCreditAlphanum4(padded_array(asset_code))
        } else {
            proof {
                lemma_stored_code_is_valid::<12>(asset_code@);
            }
            AssetCode::AssetTypeCreditAlphanum12(padded_array(asset_code))
        };
        Ok(
            Operation {
                source_account,
                body: OperationBody::AllowTrust(AllowTrustOp { trustor, asset, authorize }),
            },
        )
    }
}

} // verus!

//! The optional source account of an operation.

use crate::error::StellarSdkError;
use crate::keys::IntoMuxedAccountId;
use crate::xdr::types::MuxedAccount;
use vstd::prelude::*;

verus! {

/// The source account that an optional argument names: none if there is no
/// argument, else the account it converts to.
pub open spec fn optional_source<T: IntoMuxedAccountId>(source: Option<T>) -> Result<
    Option<MuxedAccount>,
    StellarSdkError,
> {
    match source {
        None => Ok(None),
        Some(source) => match source.muxed_account_id() {
            Ok(account) => Ok(Some(account)),
            Err(e) => Err(e),
        },
    }
}

/// Converts the optional source account of an operation.
pub fn convert_source<T: IntoMuxedAccountId>(source: Option<T>) -> (r: Result<
    Option<MuxedAccount>,
    StellarSdkError,
>)
    ensures
        r == optional_source(source),
{
    match source {
        None => Ok(None),
        Some(source) => match source.into_muxed_account_id() {
            Ok(account) => Ok(Some(account)),
            Err(e) => Err(e),
        },
    }
}

} // verus!

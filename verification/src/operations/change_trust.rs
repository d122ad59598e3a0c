//! The operation that creates, changes or removes a trust line.

use crate::error::StellarSdkError;
use crate::keys::IntoMuxedAccountId;
use crate::operations::source::{convert_source, optional_source};
use crate::validity::{asset_error, valid_operation};
use crate::xdr::operation::{ChangeTrustOp, Operation, OperationBody};
use crate::xdr::types::Asset;
use vstd::prelude::*;

verus! {

/// The limit that an optional argument asks for: the largest possible one
/// if there is no argument.
pub open spec fn trust_limit(limit: Option<i64>) -> i64 {
    match limit {
        None => i64::MAX,
        Some(limit) => limit,
    }
}

/// The operation that trusts `line` up to `limit`. The source account is
/// checked first, then the limit, which must not be negative.
pub open spec fn change_trust<T: IntoMuxedAccountId>(
    source_account: Option<T>,
    line: Asset,
    limit: Option<i64>,
) -> Result<Operation, StellarSdkError> {
    match optional_source(source_account) {
        Err(e) => Err(e),
        Ok(source_account) => if trust_limit(limit) < 0 {
            Err(StellarSdkError::InvalidTrustLineLimit)
        } else {
            Ok(
                Operation {
                    source_account,
                    body: OperationBody::ChangeTrust(
                        ChangeTrustOp { line, limit: trust_limit(limit) },
                    ),
                },
            )
        },
    }
}

impl Operation {
    /// Creates or changes a trust line, or removes it with a limit of zero.
    /// Without a limit the trust line has the largest possible one.
    pub fn new_change_trust<T: IntoMuxedAccountId>(
        source_account: Option<T>,
        line: Asset,
        limit: Option<i64>,
    ) -> (r: Result<Operation, StellarSdkError>)
        ensures
            r == change_trust(source_account, line, limit),
            r matches Ok(operation) ==> (asset_error(line) is None ==> valid_operation(
                operation,
            )),
    {
        let source_account = match convert_source(source_account) {
            Ok(source_account) => source_account,
            Err(e) => {
                return Err(e);
            },
        };
        let limit = match limit {
            None => i64::MAX,
            Some(limit) => limit,
        };
        if limit < 0 {
            return Err(StellarSdkError::InvalidTrustLineLimit);
        }
        Ok(
            Operation {
                source_account,
                body: OperationBody::ChangeTrust(ChangeTrustOp { line, limit }),
            },
        )
    }
}

} // verus!

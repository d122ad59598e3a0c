//! The operation that claims a claimable balance.

use crate::claimable_balance_id::IntoClaimbleBalanceId;
use crate::error::StellarSdkError;
use crate::keys::IntoMuxedAccountId;
use crate::operations::source::{convert_source, optional_source};
use crate::validity::valid_operation;
use crate::xdr::operation::{ClaimClaimableBalanceOp, Operation, OperationBody};
use vstd::prelude::*;

verus! {

impl Operation {
    /// Claims a claimable balance.
    ///
    /// The source account is converted first, then the id of the balance.
    /// The operation is built if and only if both convert.
    pub fn new_claim_claimable_balance<T: IntoMuxedAccountId, S: IntoClaimbleBalanceId>(
        source_account: Option<T>,
        balance_id: S,
    ) -> (r: Result<Operation, StellarSdkError>)
        ensures
            match r {
                Ok(operation) => {
                    &&& valid_operation(operation)
                    &&& optional_source(source_account) matches Ok(source)
                    &&& source == operation.source_account
                    &&& operation.body matches OperationBody::ClaimClaimableBalance(claim)
                    &&& balance_id.claimable_balance_id() == Some(claim.balance_id)
                },
                Err(e) => {
                    match optional_source(source_account) {
                        Err(source_error) => e == source_error,
                        Ok(_) => balance_id.claimable_balance_id() is None,
                    }
                },
            },
    {
        let source_account = match convert_source(source_account) {
            Ok(source_account) => source_account,
            Err(e) => {
                return Err(e);
            },
        };
        let balance_id = match balance_id.into_claimable_balance_id() {
            Ok(balance_id) => balance_id,
            Err(e) => {
                return Err(e);
            },
        };
        Ok(
            Operation {
                source_account,
                body: OperationBody::ClaimClaimableBalance(ClaimClaimableBalanceOp { balance_id }),
            },
        )
    }
}

} // verus!

//! The operation that sends a payment.

use crate::amount::{convert_amount, stated_amount, IntoAmount};
use crate::error::StellarSdkError;
use crate::keys::IntoMuxedAccountId;
use crate::operations::source::{convert_source, optional_source};
use crate::xdr::operation::{Operation, OperationBody, PaymentOp};
use crate::validity::{asset_error, valid_operation};
use crate::xdr::types::Asset;
use vstd::prelude::*;

verus! {

/// The operation that pays `amount` of `asset` to `destination`. The source
/// account is checked first, then the destination, then the amount, which
/// must be positive.
pub open spec fn payment<T: IntoMuxedAccountId, S: IntoMuxedAccountId, A: IntoAmount>(
    source_account: Option<T>,
    destination: S,
    asset: Asset,
    amount: A,
) -> Result<Operation, StellarSdkError> {
    match optional_source(source_account) {
        Err(e) => Err(e),
        Ok(source_account) => match destination.muxed_account_id() {
            Err(e) => Err(e),
            Ok(destination) => match stated_amount(amount, false) {
                Err(e) => Err(e),
                Ok(amount) => Ok(
                    Operation {
                        source_account,
                        body: OperationBody::Payment(PaymentOp { destination, asset, amount }),
                    },
                ),
            },
        },
    }
}

impl Operation {
    /// Sends a positive amount of an asset to an account.
    pub fn new_payment<T: IntoMuxedAccountId, S: IntoMuxedAccountId, A: IntoAmount>(
        source_account: Option<T>,
        destination: S,
        asset: Asset,
        amount: A,
    ) -> (r: Result<Operation, StellarSdkError>)
        ensures
            r == payment(source_account, destination, asset, amount),
            r matches Ok(operation) ==> (asset_error(asset) is None ==> valid_operation(
                operation,
            )),
    {
        let source_account = match convert_source(source_account) {
            Ok(source_account) => source_account,
            Err(e) => {
                return Err(e);
            },
        };
        let destination = match destination.into_muxed_account_id() {
            Ok(destination) => destination,
            Err(e) => {
                return Err(e);
            },
        };
        let amount = match convert_amount(amount, false) {
            Ok(amount) => amount,
            Err(e) => {
                return Err(e);
            },
        };
        Ok(
            Operation {
                source_account,
                body: OperationBody::Payment(PaymentOp { destination, asset, amount }),
            },
        )
    }
}

} // verus!

//! The operation that creates an account.

use crate::amount::{convert_amount, stated_amount, IntoAmount};
use crate::error::StellarSdkError;
use crate::keys::{IntoAccountId, IntoMuxedAccountId};
use crate::operations::source::{convert_source, optional_source};
use crate::validity::valid_operation;
use crate::xdr::operation::{CreateAccountOp, Operation, OperationBody};
use vstd::prelude::*;

verus! {

/// The operation that creates `destination` with `starting_balance`. The
/// source account is checked first, then the destination, then the balance,
/// which must not be negative.
pub open spec fn create_account<T: IntoMuxedAccountId, S: IntoAccountId, A: IntoAmount>(
    source_account: Option<T>,
    destination: S,
    starting_balance: A,
) -> Result<Operation, StellarSdkError> {
    match optional_source(source_account) {
        Err(e) => Err(e),
        Ok(source_account) => match destination.account_id() {
            Err(e) => Err(e),
            Ok(destination) => match stated_amount(starting_balance, true) {
                Err(e) => Err(e),
                Ok(starting_balance) => Ok(
                    Operation {
                        source_account,
                        body: OperationBody::CreateAccount(
                            CreateAccountOp { destination, starting_balance },
                        ),
                    },
                ),
            },
        },
    }
}

impl Operation {
    /// Creates an account and gives it a starting balance of the native asset.
    pub fn new_create_account<T: IntoMuxedAccountId, S: IntoAccountId, A: IntoAmount>(
        source_account: Option<T>,
        destination: S,
        starting_balance: A,
    ) -> (r: Result<Operation, StellarSdkError>)
        ensures
            r == create_account(source_account, destination, starting_balance),
            r matches Ok(operation) ==> valid_operation(operation),
    {
        let source_account = match convert_source(source_account) {
            Ok(source_account) => source_account,
            Err(e) => {
                return Err(e);
            },
        };
        let destination = match destination.into_account_id() {
            Ok(destination) => destination,
            Err(e) => {
                return Err(e);
            },
        };
        let starting_balance = match convert_amount(starting_balance, true) {
            Ok(starting_balance) => starting_balance,
            Err(e) => {
                return Err(e);
            },
        };
        Ok(
            Operation {
                source_account,
                body: OperationBody::CreateAccount(
                    CreateAccountOp { destination, starting_balance },
                ),
            },
        )
    }
}

} // verus!

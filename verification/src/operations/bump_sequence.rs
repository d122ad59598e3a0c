//! The operation that raises a sequence number.

use crate::error::StellarSdkError;
use crate::keys::IntoMuxedAccountId;
use crate::operations::source::{convert_source, optional_source};
use crate::validity::valid_operation;
use crate::xdr::operation::{BumpSequenceOp, Operation, OperationBody};
use vstd::prelude::*;

verus! {

/// The operation that raises the sequence number to `bump_to`.
pub open spec fn bump_sequence<T: IntoMuxedAccountId>(
    source_account: Option<T>,
    bump_to: i64,
) -> Result<Operation, StellarSdkError> {
    match optional_source(source_account) {
        Err(e) => Err(e),
        Ok(source_account) => Ok(
            Operation {
                source_account,
                body: OperationBody::BumpSequence(BumpSequenceOp { bump_to }),
            },
        ),
    }
}

impl Operation {
    /// Raises the sequence number of the source account. Fails only if the
    /// source account does not convert.
    pub fn new_bump_sequence<T: IntoMuxedAccountId>(source_account: Option<T>, bump_to: i64) -> (r:
        Result<Operation, StellarSdkError>)
        ensures
            r == bump_sequence(source_account, bump_to),
            r matches Ok(operation) ==> valid_operation(operation),
    {
        let source_account = match convert_source(source_account) {
            Ok(source_account) => source_account,
            Err(e) => {
                return Err(e);
            },
        };
        Ok(
            Operation {
                source_account,
                body: OperationBody::BumpSequence(BumpSequenceOp { bump_to }),
            },
        )
    }
}

} // verus!

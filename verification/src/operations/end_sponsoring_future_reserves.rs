//! The operation that ends the sponsoring of future reserves.

use crate::error::StellarSdkError;
use crate::keys::IntoMuxedAccountId;
use crate::operations::source::{convert_source, optional_source};
use crate::validity::valid_operation;
use crate::xdr::operation::{Operation, OperationBody};
use vstd::prelude::*;

verus! {

/// The operation that ends the sponsoring of future reserves.
pub open spec fn end_sponsoring_future_reserves<T: IntoMuxedAccountId>(
    source_account: Option<T>,
) -> Result<Operation, StellarSdkError> {
    match optional_source(source_account) {
        Err(e) => Err(e),
        Ok(source_account) => Ok(
            Operation { source_account, body: OperationBody::EndSponsoringFutureReserves },
        ),
    }
}

impl Operation {
    /// Ends the sponsoring of future reserves. Fails only if the source
    /// account does not convert.
    pub fn new_end_sponsoring_future_reserves<T: IntoMuxedAccountId>(
        source_account: Option<T>,
    ) -> (r: Result<Operation, StellarSdkError>)
        ensures
            r == end_sponsoring_future_reserves(source_account),
            r matches Ok(operation) ==> valid_operation(operation),
    {
        let source_account = match convert_source(source_account) {
            Ok(source_account) => source_account,
            Err(e) => {
                return Err(e);
            },
        };
        Ok(Operation { source_account, body: OperationBody::EndSponsoringFutureReserves })
    }
}

} // verus!

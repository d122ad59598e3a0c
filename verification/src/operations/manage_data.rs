//! The operation that manages an entry in the data of an account.

use crate::error::StellarSdkError;
use crate::keys::IntoMuxedAccountId;
use crate::operations::source::{convert_source, optional_source};
use crate::validity::valid_operation;
use crate::xdr::codec::XdrCodec;
use crate::xdr::opaque::LimitedString;
use crate::xdr::operation::{DataValue, ManageDataOp, Operation, OperationBody};
use vstd::prelude::*;

verus! {

/// The largest number of bytes in the name of a data entry.
pub const MAX_DATA_NAME_LENGTH: usize = 64;

/// The largest number of bytes in the value of a data entry.
pub const MAX_DATA_VALUE_LENGTH: usize = 64;

/// The bounded string of at most 64 bytes that holds `data`, or the error
/// that says by how much `data` is too long.
pub open spec fn bounded64(data: Seq<u8>) -> Result<LimitedString<64>, StellarSdkError> {
    if data.len() <= 64 {
        Ok(LimitedString::<64>::holding(data))
    } else {
        Err(
            StellarSdkError::ExceedsMaximumLength {
                requested_length: data.len() as usize,
                allowed_length: 64,
            },
        )
    }
}

/// Anything that can be stored as the value of a data entry.
pub trait AsDataValue: Sized {
    /// The value to store, or why there is none.
    spec fn data_value(&self) -> Result<DataValue, StellarSdkError>;

    /// Converts into the value of a data entry.
    fn as_data_value(self) -> (r: Result<DataValue, StellarSdkError>)
        ensures
            r == self.data_value(),
    ;
}

impl AsDataValue for DataValue {
    open spec fn data_value(&self) -> Result<DataValue, StellarSdkError> {
        Ok(*self)
    }

    fn as_data_value(self) -> (r: Result<DataValue, StellarSdkError>) {
        Ok(self)
    }
}

impl<'a> AsDataValue for &'a [u8] {
    open spec fn data_value(&self) -> Result<DataValue, StellarSdkError> {
        bounded64(self@)
    }

    fn as_data_value(self) -> (r: Result<DataValue, StellarSdkError>) {
        LimitedString::<64>::new(self)
    }
}

/// The value that an optional argument asks to store: none if there is no
/// argument, which stands for deleting the entry.
pub open spec fn optional_data_value<S: AsDataValue>(data_value: Option<S>) -> Result<
    Option<DataValue>,
    StellarSdkError,
> {
    match data_value {
        None => Ok(None),
        Some(value) => match value.data_value() {
            Ok(value) => Ok(Some(value)),
            Err(e) => Err(e),
        },
    }
}

/// The operation that sets the entry `data_name` to `data_value`, or deletes
/// it where there is no value. The source account is checked first, then the
/// value, then the name.
pub open spec fn manage_data<S: AsDataValue, U: IntoMuxedAccountId>(
    source_account: Option<U>,
    data_name: Seq<u8>,
    data_value: Option<S>,
) -> Result<Operation, StellarSdkError> {
    match optional_source(source_account) {
        Err(e) => Err(e),
        Ok(source_account) => match optional_data_value(data_value) {
            Err(e) => Err(e),
            Ok(data_value) => match bounded64(data_name) {
                Err(e) => Err(e),
                Ok(data_name) => Ok(
                    Operation {
                        source_account,
                        body: OperationBody::ManageData(ManageDataOp { data_name, data_value }),
                    },
                ),
            },
        },
    }
}

impl Operation {
    /// Sets, changes or deletes an entry in the data of an account.
    ///
    /// The name and the value may have at most 64 bytes each. Without a
    /// value the operation deletes the entry.
    pub fn new_manage_data<S: AsDataValue, U: IntoMuxedAccountId>(
        source_account: Option<U>,
        data_name: &[u8],
        data_value: Option<S>,
    ) -> (r: Result<Operation, StellarSdkError>)
        ensures
            r == manage_data(source_account, data_name@, data_value),
            r matches Ok(operation) ==> (data_value matches Some(value) && value.data_value()
                matches Ok(held) ==> held.wf()) ==> valid_operation(operation),
    {
        let source_account = match convert_source(source_account) {
            Ok(source_account) => source_account,
            Err(e) => {
                return Err(e);
            },
        };
        let data_value = match data_value {
            Some(data_value) => match data_value.as_data_value() {
                Ok(data_value) => Some(data_value),
                Err(e) => {
                    return Err(e);
                },
            },
            None => None,
        };
        let data_name = match LimitedString::<64>::new(data_name) {
            Ok(data_name) => data_name,
            Err(e) => {
                return Err(e);
            },
        };
        Ok(
            Operation {
                source_account,
                body: OperationBody::ManageData(ManageDataOp { data_name, data_value }),
            },
        )
    }
}

} // verus!

//! The operation that sets options of an account.

use crate::error::StellarSdkError;
use crate::keys::IntoAccountId;
use crate::keys::MAX_SIGNER_WEIGHT;
use crate::validity::valid_operation;
use crate::xdr::opaque::LimitedString;
use crate::xdr::operation::{Operation, OperationBody, SetOptionsOp};
use crate::xdr::types::{AccountId, Signer};
use vstd::prelude::*;

verus! {

/// The largest number of bytes in a home domain.
pub const MAX_HOME_DOMAIN_LENGTH: usize = 32;

/// The home domain that an optional argument asks for.
pub open spec fn optional_home_domain(home_domain: Option<&[u8]>) -> Result<
    Option<LimitedString<32>>,
    StellarSdkError,
> {
    match home_domain {
        None => Ok(None),
        Some(domain) => if domain@.len() <= MAX_HOME_DOMAIN_LENGTH {
            Ok(Some(LimitedString::<32>::holding(domain@)))
        } else {
            Err(
                StellarSdkError::ExceedsMaximumLength {
                    requested_length: domain@.len() as usize,
                    allowed_length: 32,
                },
            )
        },
    }
}

/// The account that an optional argument names.
pub open spec fn optional_account<T: IntoAccountId>(account: Option<T>) -> Result<
    Option<AccountId>,
    StellarSdkError,
> {
    match account {
        None => Ok(None),
        Some(account) => match account.account_id() {
            Ok(account) => Ok(Some(account)),
            Err(e) => Err(e),
        },
    }
}

/// A weight or threshold as it is written on the wire.
pub open spec fn widened(weight: Option<u8>) -> Option<u32> {
    match weight {
        None => None,
        Some(weight) => Some(weight as u32),
    }
}

/// The operation that sets the given options. The home domain is checked
/// first, then the inflation destination; the other fields are taken as
/// they are.
pub open spec fn set_options<T: IntoAccountId>(
    inflation_dest: Option<T>,
    clear_flags: Option<u32>,
    set_flags: Option<u32>,
    master_weight: Option<u8>,
    low_threshold: Option<u8>,
    med_threshold: Option<u8>,
    high_threshold: Option<u8>,
    home_domain: Option<&[u8]>,
    signer: Option<Signer>,
) -> Result<Operation, StellarSdkError> {
    match optional_home_domain(home_domain) {
        Err(e) => Err(e),
        Ok(home_domain) => match optional_account(inflation_dest) {
            Err(e) => Err(e),
            Ok(inflation_dest) => Ok(
                Operation {
                    source_account: None,
                    body: OperationBody::SetOptions(
                        SetOptionsOp {
                            inflation_dest,
                            clear_flags,
                            set_flags,
                            master_weight: widened(master_weight),
                            low_threshold: widened(low_threshold),
                            med_threshold: widened(med_threshold),
                            high_threshold: widened(high_threshold),
                            home_domain,
                            signer,
                        },
                    ),
                },
            ),
        },
    }
}

fn widen(weight: Option<u8>) -> (r: Option<u32>)
    ensures
        r == widened(weight),
{
    match weight {
        None => None,
        Some(weight) => Some(weight as u32),
    }
}

impl Operation {
    /// Sets options of the source account of the transaction.
    ///
    /// Every argument is optional, and none is checked against another: the
    /// thresholds need not be ordered, and flags may be both set and
    /// cleared. Only the home domain, at most 32 bytes, and the inflation
    /// destination can make the constructor fail.
    pub fn new_set_options<T: IntoAccountId>(
        inflation_dest: Option<T>,
        clear_flags: Option<u32>,
        set_flags: Option<u32>,
        master_weight: Option<u8>,
        low_threshold: Option<u8>,
        med_threshold: Option<u8>,
        high_threshold: Option<u8>,
        home_domain: Option<&[u8]>,
        signer: Option<Signer>,
    ) -> (r: Result<Operation, StellarSdkError>)
        ensures
            r == set_options(
                inflation_dest,
                clear_flags,
                set_flags,
                master_weight,
                low_threshold,
                med_threshold,
                high_threshold,
                home_domain,
                signer,
            ),
            r matches Ok(operation) ==> ((signer matches Some(given) ==> given.weight
                <= MAX_SIGNER_WEIGHT) ==> valid_operation(operation)),
    {
        let home_domain = match home_domain {
            Some(home_domain) => match LimitedString::<32>::new(home_domain) {
                Ok(home_domain) => Some(home_domain),
                Err(e) => {
                    return Err(e);
                },
            },
            None => None,
        };
        let inflation_dest = match inflation_dest {
            Some(inflation_dest) => match inflation_dest.into_account_id() {
                Ok(inflation_dest) => Some(inflation_dest),
                Err(e) => {
                    return Err(e);
                },
            },
            None => None,
        };
        Ok(
            Operation {
                source_account: None,
                body: OperationBody::SetOptions(
                    SetOptionsOp {
                        inflation_dest,
                        clear_flags,
                        set_flags,
                        master_weight: widen(master_weight),
                        low_threshold: widen(low_threshold),
                        med_threshold: widen(med_threshold),
                        high_threshold: widen(high_threshold),
                        home_domain,
                        signer,
                    },
                ),
            },
        )
    }
}

} // verus!

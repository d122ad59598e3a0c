//! The operation that manages an offer to sell.

use crate::amount::{convert_amount, stated_amount, IntoAmount};
use crate::error::StellarSdkError;
use crate::keys::IntoMuxedAccountId;
use crate::operations::source::{convert_source, optional_source};
use crate::validity::{asset_error, valid_operation};
use crate::xdr::operation::{ManageSellOfferOp, Operation, OperationBody};
use crate::xdr::types::{Asset, Price};
use vstd::prelude::*;

verus! {

/// The offer that an optional argument names: 0, a new offer, if there is
/// no argument.
pub open spec fn offer_number(offer_id: Option<i64>) -> i64 {
    match offer_id {
        None => 0,
        Some(offer_id) => offer_id,
    }
}

/// The operation that offers `amount` of `selling` for `buying` at `price`.
/// The source account is checked first, then the amount, which must not be
/// negative, then the price, whose parts must be positive.
pub open spec fn manage_sell_offer<T: IntoMuxedAccountId, A: IntoAmount>(
    source_account: Option<T>,
    selling: Asset,
    buying: Asset,
    amount: A,
    price: Price,
    offer_id: Option<i64>,
) -> Result<Operation, StellarSdkError> {
    match optional_source(source_account) {
        Err(e) => Err(e),
        Ok(source_account) => match stated_amount(amount, true) {
            Err(e) => Err(e),
            Ok(amount) => if price.n <= 0 || price.d <= 0 {
                Err(StellarSdkError::InvalidPrice)
            } else {
                Ok(
                    Operation {
                        source_account,
                        body: OperationBody::ManageSellOffer(
                            ManageSellOfferOp {
                                selling,
                                buying,
                                amount,
                                price,
                                offer_id: offer_number(offer_id),
                            },
                        ),
                    },
                )
            },
        },
    }
}

impl Operation {
    /// Creates an offer to sell, changes one, or removes it with an amount
    /// of zero.
    pub fn new_manage_sell_offer<T: IntoMuxedAccountId, A: IntoAmount>(
        source_account: Option<T>,
        selling: Asset,
        buying: Asset,
        amount: A,
        price: Price,
        offer_id: Option<i64>,
    ) -> (r: Result<Operation, StellarSdkError>)
        ensures
            r == manage_sell_offer(source_account, selling, buying, amount, price, offer_id),
            r matches Ok(operation) ==> (asset_error(selling) is None && asset_error(buying)
                is None ==> valid_operation(operation)),
    {
        let source_account = match convert_source(source_account) {
            Ok(source_account) => source_account,
            Err(e) => {
                return Err(e);
            },
        };
        let amount = match convert_amount(amount, true) {
            Ok(amount) => amount,
            Err(e) => {
                return Err(e);
            },
        };
        if price.n <= 0 || price.d <= 0 {
            return Err(StellarSdkError::InvalidPrice);
        }
        let offer_id = match offer_id {
            None => 0,
            Some(offer_id) => offer_id,
        };
        Ok(
            Operation {
                source_account,
                body: OperationBody::ManageSellOffer(
                    ManageSellOfferOp { selling, buying, amount, price, offer_id },
                ),
            },
        )
    }
}

} // verus!

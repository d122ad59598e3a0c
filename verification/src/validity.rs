//! The rules that the wire format cannot express.
//!
//! Decoding checks the grammar only. What a well-formed value must satisfy
//! beyond that, the sign of an amount, the weight of a signer, the characters
//! of an asset code, is stated here, and checked here for values that were
//! not made by the constructors.

use crate::asset::{all_code_characters, code_error, is_code_character};
use crate::bytes::{array_of, lemma_array_of};
use crate::error::StellarSdkError;
use crate::keys::MAX_SIGNER_WEIGHT;
use crate::xdr::codec::XdrCodec;
use crate::xdr::operation::{Operation, OperationBody, SetOptionsOp};
use crate::xdr::transaction::{Transaction, TransactionView, MAX_OPERATIONS};
use crate::xdr::types::{Asset, AssetCode, Price};
use vstd::prelude::*;

verus! {

/// The number of characters of a code that is filled up with zero bytes:
/// the position of the first zero byte, or the length if there is none.
pub open spec fn code_length(code: Seq<u8>) -> int
    decreases code.len(),
{
    if code.len() == 0 || code[0] == 0 {
        0
    } else {
        1 + code_length(code.drop_first())
    }
}

/// Why a stored asset code is none, if it is none: it must consist of at
/// least one letter or digit, followed by zero bytes only.
pub open spec fn stored_code_error(code: Seq<u8>) -> Option<StellarSdkError> {
    let length = code_length(code);
    if length == 0 {
        Some(StellarSdkError::AssetCodeEmpty)
    } else if !all_code_characters(code.take(length)) || code.skip(length) != Seq::new(
        (code.len() - length) as nat,
        |i: int| 0u8,
    ) {
        Some(StellarSdkError::InvalidAssetCodeCharacter)
    } else {
        None
    }
}

/// Why an asset is not valid, if it is not.
pub open spec fn asset_error(asset: Asset) -> Option<StellarSdkError> {
    match asset {
        Asset::AssetTypeNative => None,
        Asset::AssetTypeCreditAlphanum4(inner) => stored_code_error(inner.asset_code@),
        Asset::AssetTypeCreditAlphanum12(inner) => stored_code_error(inner.asset_code@),
    }
}

/// Why a price is not valid, if it is not: both parts must be positive.
pub open spec fn price_error(price: Price) -> Option<StellarSdkError> {
    if price.n > 0 && price.d > 0 {
        None
    } else {
        Some(StellarSdkError::InvalidPrice)
    }
}

/// Whether a weight or threshold that is present fits into a byte.
pub open spec fn fits_byte(weight: Option<u32>) -> bool {
    match weight {
        None => true,
        Some(weight) => weight <= MAX_SIGNER_WEIGHT,
    }
}

/// Why the options are not valid, if they are not.
pub open spec fn options_error(options: SetOptionsOp) -> Option<StellarSdkError> {
    if !fits_byte(options.master_weight) || !fits_byte(options.low_threshold) || !fits_byte(
        options.med_threshold,
    ) || !fits_byte(options.high_threshold) {
        Some(StellarSdkError::InvalidSignerWeight)
    } else {
        match options.signer {
            Some(signer) => if signer.weight > MAX_SIGNER_WEIGHT {
                Some(StellarSdkError::InvalidSignerWeight)
            } else {
                None
            },
            None => None,
        }
    }
}

/// The largest number of claimants of a claimable balance.
pub const MAX_CLAIMANTS: usize = 10;

/// Why a claimable balance cannot have `count` claimants, if it cannot: it
/// needs at least one, and can have at most ten.
pub open spec fn claimant_count_error(count: usize) -> Option<StellarSdkError> {
    if count == 0 {
        Some(StellarSdkError::EmptyClaimants)
    } else if count > MAX_CLAIMANTS {
        Some(
            StellarSdkError::ExceedsMaximumLength { requested_length: count, allowed_length: 10 },
        )
    } else {
        None
    }
}

/// Checks the number of claimants of a claimable balance.
pub fn check_claimant_count(count: usize) -> (r: Result<(), StellarSdkError>)
    ensures
        r == (match claimant_count_error(count) {
            None => Ok::<(), StellarSdkError>(()),
            Some(e) => Err::<(), StellarSdkError>(e),
        }),
{
    if count == 0 {
        Err(StellarSdkError::EmptyClaimants)
    } else if count > MAX_CLAIMANTS {
        Err(StellarSdkError::ExceedsMaximumLength { requested_length: count, allowed_length: 10 })
    } else {
        Ok(())
    }
}

/// The first of two findings.
pub open spec fn first_error(
    first: Option<StellarSdkError>,
    second: Option<StellarSdkError>,
) -> Option<StellarSdkError> {
    match first {
        Some(e) => Some(e),
        None => second,
    }
}

/// Why the body of an operation is not valid, if it is not. The fields are
/// looked at in the order in which they are written.
pub open spec fn body_error(body: OperationBody) -> Option<StellarSdkError> {
    match body {
        OperationBody::CreateAccount(inner) => if inner.starting_balance < 0 {
            Some(StellarSdkError::AmountNegative)
        } else {
            None
        },
        OperationBody::Payment(inner) => first_error(
            asset_error(inner.asset),
            if inner.amount <= 0 {
                Some(StellarSdkError::AmountNonPositive)
            } else {
                None
            },
        ),
        OperationBody::ManageSellOffer(inner) => first_error(
            asset_error(inner.selling),
            first_error(
                asset_error(inner.buying),
                first_error(
                    if inner.amount < 0 {
                        Some(StellarSdkError::AmountNegative)
                    } else {
                        None
                    },
                    price_error(inner.price),
                ),
            ),
        ),
        OperationBody::SetOptions(inner) => options_error(inner),
        OperationBody::ChangeTrust(inner) => first_error(
            asset_error(inner.line),
            if inner.limit < 0 {
                Some(StellarSdkError::InvalidTrustLineLimit)
            } else {
                None
            },
        ),
        OperationBody::AllowTrust(inner) => first_error(
            match inner.asset {
                AssetCode::AssetTypeCreditAlphanum4(code) => stored_code_error(code@),
                AssetCode::AssetTypeCreditAlphanum12(code) => stored_code_error(code@),
            },
            if inner.authorize > 2 {
                Some(StellarSdkError::InvalidAuthorizeFlag)
            } else {
                None
            },
        ),
        OperationBody::ManageData(_) => None,
        OperationBody::BumpSequence(_) => None,
        OperationBody::ClaimClaimableBalance(_) => None,
        OperationBody::EndSponsoringFutureReserves => None,
    }
}

/// Whether an operation satisfies every rule for its kind.
pub open spec fn valid_operation(operation: Operation) -> bool {
    operation.wf() && body_error(operation.body) is None
}

/// The first operation that is not valid, and why, if there is one.
pub open spec fn operations_error(operations: Seq<Operation>) -> Option<StellarSdkError>
    decreases operations.len(),
{
    if operations.len() == 0 {
        None
    } else {
        first_error(operations_error(operations.drop_last()), body_error(operations.last().body))
    }
}

/// Whether every operation is valid.
pub open spec fn all_valid(operations: Seq<Operation>) -> bool {
    forall|i: int| 0 <= i < operations.len() ==> valid_operation(#[trigger] operations[i])
}

/// Among valid operations there is none to object to.
pub proof fn lemma_valid_operations(operations: Seq<Operation>)
    requires
        all_valid(operations),
    ensures
        operations_error(operations) is None,
    decreases operations.len(),
{
    if operations.len() > 0 {
        let front = operations.drop_last();
        assert forall|i: int| 0 <= i < front.len() implies valid_operation(
            #[trigger] front[i],
        ) by {
            assert(front[i] == operations[i]);
        }
        lemma_valid_operations(front);
        assert(valid_operation(operations[operations.len() - 1]));
    }
}

/// Why a transaction is not valid, if it is not: it must have between 1 and
/// 100 operations, and each must be valid.
pub open spec fn transaction_error(tx: TransactionView) -> Option<StellarSdkError> {
    if tx.operations.len() == 0 {
        Some(StellarSdkError::MissingOperations)
    } else if tx.operations.len() > MAX_OPERATIONS {
        Some(
            StellarSdkError::ExceedsMaximumLength {
                requested_length: tx.operations.len() as usize,
                allowed_length: 100,
            },
        )
    } else {
        operations_error(tx.operations)
    }
}

proof fn lemma_code_length(code: Seq<u8>, length: int)
    requires
        0 <= length <= code.len(),
        forall|i: int| 0 <= i < length ==> code[i] != 0,
        length < code.len() ==> code[length] == 0,
    ensures
        code_length(code) == length,
    decreases length,
{
    if length > 0 {
        let rest = code.drop_first();
        assert forall|i: int| 0 <= i < length - 1 implies rest[i] != 0 by {
            assert(rest[i] == code[i + 1]);
        }
        lemma_code_length(rest, length - 1);
    }
}

/// A code that the constructors accept is valid once it is stored.
pub proof fn lemma_stored_code_is_valid<const N: usize>(code: Seq<u8>)
    requires
        code_error(code, N as nat) is None,
    ensures
        stored_code_error(array_of::<N>(code)@) is None,
{
    let stored = array_of::<N>(code)@;
    lemma_array_of::<N>(code);
    assert forall|i: int| 0 <= i < code.len() implies stored[i] != 0 by {
        assert(is_code_character(code[i]));
    }
    lemma_code_length(stored, code.len() as int);
    assert(stored.take(code.len() as int) =~= code);
    assert(stored.skip(code.len() as int) =~= Seq::new(
        (stored.len() - code.len()) as nat,
        |i: int| 0u8,
    ));
}

fn check_stored_code(code: &[u8]) -> (r: Result<(), StellarSdkError>)
    ensures
        r == (match stored_code_error(code@) {
            None => Ok::<(), StellarSdkError>(()),
            Some(e) => Err::<(), StellarSdkError>(e),
        }),
{
    let mut length: usize = 0;
    while length < code.len() && code[length] != 0
        invariant
            length <= code.len(),
            forall|i: int| 0 <= i < length ==> code@[i] != 0,
        decreases code.len() - length,
    {
        length += 1;
    }
    proof {
        lemma_code_length(code@, length as int);
    }
    if length == 0 {
        return Err(StellarSdkError::AssetCodeEmpty);
    }
    let mut i: usize = 0;
    while i < code.len()
        invariant
            i <= code.len(),
            0 < length <= code.len(),
            code_length(code@) == length,
            forall|k: int| 0 <= k < i && k < length ==> is_code_character(#[trigger] code@[k]),
            forall|k: int| length <= k < i ==> code@[k] == 0,
        decreases code.len() - i,
    {
        let character = code[i];
        if i < length {
            let digit = 48 <= character && character <= 57;
            let upper = 65 <= character && character <= 90;
            let lower = 97 <= character && character <= 122;
            if !(digit || upper || lower) {
                proof {
                    assert(code@.take(length as int)[i as int] == code@[i as int]);
                }
                return Err(StellarSdkError::InvalidAssetCodeCharacter);
            }
        } else if character != 0 {
            proof {
                assert(code@.skip(length as int)[i - length] == code@[i as int]);
            }
            return Err(StellarSdkError::InvalidAssetCodeCharacter);
        }
        i += 1;
    }
    proof {
        assert(all_code_characters(code@.take(length as int)));
        assert(code@.skip(length as int) =~= Seq::new(
            (code@.len() - length) as nat,
            |i: int| 0u8,
        ));
    }
    Ok(())
}

/// Checks the code of an asset.
pub fn check_asset(asset: &Asset) -> (r: Result<(), StellarSdkError>)
    ensures
        r == (match asset_error(*asset) {
            None => Ok::<(), StellarSdkError>(()),
            Some(e) => Err::<(), StellarSdkError>(e),
        }),
{
    match asset {
        Asset::AssetTypeNative => Ok(()),
        Asset::AssetTypeCreditAlphanum4(inner) => check_stored_code(inner.asset_code.as_slice()),
        Asset::AssetTypeCreditAlphanum12(inner) => check_stored_code(inner.asset_code.as_slice()),
    }
}

fn check_weight(weight: Option<u32>) -> (r: bool)
    ensures
        r == fits_byte(weight),
{
    match weight {
        None => true,
        Some(weight) => weight <= MAX_SIGNER_WEIGHT,
    }
}

/// Checks an operation against the rules for its kind.
pub fn check_operation(operation: &Operation) -> (r: Result<(), StellarSdkError>)
    ensures
        r == (match body_error(operation.body) {
            None => Ok::<(), StellarSdkError>(()),
            Some(e) => Err::<(), StellarSdkError>(e),
        }),
{
    match &operation.body {
        OperationBody::CreateAccount(inner) => {
            if inner.starting_balance < 0 {
                return Err(StellarSdkError::AmountNegative);
            }
            Ok(())
        },
        OperationBody::Payment(inner) => {
            match check_asset(&inner.asset) {
                Ok(_) => {},
                Err(e) => {
                    return Err(e);
                },
            }
            if inner.amount <= 0 {
                return Err(StellarSdkError::AmountNonPositive);
            }
            Ok(())
        },
        OperationBody::ManageSellOffer(inner) => {
            match check_asset(&inner.selling) {
                Ok(_) => {},
                Err(e) => {
                    return Err(e);
                },
            }
            match check_asset(&inner.buying) {
                Ok(_) => {},
                Err(e) => {
                    return Err(e);
                },
            }
            if inner.amount < 0 {
                return Err(StellarSdkError::AmountNegative);
            }
            if inner.price.n > 0 && inner.price.d > 0 {
                Ok(())
            } else {
                Err(StellarSdkError::InvalidPrice)
            }
        },
        OperationBody::SetOptions(inner) => {
            if !check_weight(inner.master_weight) || !check_weight(inner.low_threshold)
                || !check_weight(inner.med_threshold) || !check_weight(inner.high_threshold) {
                return Err(StellarSdkError::InvalidSignerWeight);
            }
            match inner.signer {
                Some(signer) => {
                    if signer.weight > MAX_SIGNER_WEIGHT {
                        return Err(StellarSdkError::InvalidSignerWeight);
                    }
                    Ok(())
                },
                None => Ok(()),
            }
        },
        OperationBody::ChangeTrust(inner) => {
            match check_asset(&inner.line) {
                Ok(_) => {},
                Err(e) => {
                    return Err(e);
                },
            }
            if inner.limit < 0 {
                return Err(StellarSdkError::InvalidTrustLineLimit);
            }
            Ok(())
        },
        OperationBody::AllowTrust(inner) => {
            let code = match &inner.asset {
                AssetCode::AssetTypeCreditAlphanum4(code) => check_stored_code(code.as_slice()),
                AssetCode::AssetTypeCreditAlphanum12(code) => check_stored_code(code.as_slice()),
            };
            match code {
                Ok(_) => {},
                Err(e) => {
                    return Err(e);
                },
            }
            if inner.authorize > 2 {
                return Err(StellarSdkError::InvalidAuthorizeFlag);
            }
            Ok(())
        },
        OperationBody::ManageData(_) => Ok(()),
        OperationBody::BumpSequence(_) => Ok(()),
        OperationBody::ClaimClaimableBalance(_) => Ok(()),
        OperationBody::EndSponsoringFutureReserves => Ok(()),
    }
}

/// Checks a transaction: the number of its operations, and each of them.
pub fn check_transaction(tx: &Transaction) -> (r: Result<(), StellarSdkError>)
    ensures
        r == (match transaction_error(tx@) {
            None => Ok::<(), StellarSdkError>(()),
            Some(e) => Err::<(), StellarSdkError>(e),
        }),
{
    if tx.operations.len() == 0 {
        return Err(StellarSdkError::MissingOperations);
    }
    if tx.operations.len() > MAX_OPERATIONS as usize {
        return Err(
            StellarSdkError::ExceedsMaximumLength {
                requested_length: tx.operations.len(),
                allowed_length: 100,
            },
        );
    }
    let mut i: usize = 0;
    assert(tx.operations@.take(0) =~= Seq::<Operation>::empty());
    while i < tx.operations.len()
        invariant
            i <= tx.operations.len(),
            0 < tx.operations@.len() <= MAX_OPERATIONS,
            operations_error(tx.operations@.take(i as int)) is None,
        decreases tx.operations.len() - i,
    {
        proof {
            assert(tx.operations@.take(i + 1).drop_last() =~= tx.operations@.take(i as int));
        }
        match check_operation(&tx.operations[i]) {
            Ok(_) => {},
            Err(e) => {
                proof {
                    lemma_operations_error_stays(tx.operations@, i + 1);
                }
                return Err(e);
            },
        }
        i += 1;
    }
    assert(tx.operations@.take(i as int) =~= tx.operations@);
    Ok(())
}

proof fn lemma_operations_error_stays(operations: Seq<Operation>, upto: int)
    requires
        0 <= upto <= operations.len(),
        operations_error(operations.take(upto)) is Some,
    ensures
        operations_error(operations) == operations_error(operations.take(upto)),
    decreases operations.len() - upto,
{
    if upto < operations.len() {
        assert(operations.take(upto + 1).drop_last() =~= operations.take(upto));
        lemma_operations_error_stays(operations, upto + 1);
    } else {
        assert(operations.take(upto) =~= operations);
    }
}

} // verus!

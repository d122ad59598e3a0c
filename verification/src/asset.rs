//! Assets and the rules for their codes.

use crate::bytes::{array_of, padded_array};
use crate::error::StellarSdkError;
use crate::keys::IntoAccountId;
use crate::validity::{asset_error, lemma_stored_code_is_valid};
use crate::xdr::types::{AccountId, Asset, AssetAlphaNum12, AssetAlphaNum4};
use vstd::prelude::*;

verus! {

/// Whether `character` may occur in an asset code: a digit or a letter.
pub open spec fn is_code_character(character: u8) -> bool {
    (48 <= character <= 57) || (65 <= character <= 90) || (97 <= character <= 122)
}

/// Whether every character of `code` may occur in an asset code.
pub open spec fn all_code_characters(code: Seq<u8>) -> bool {
    forall|i: int| 0 <= i < code.len() ==> is_code_character(#[trigger] code[i])
}

/// Why `code` is no asset code of at most `limit` characters, if it is none.
pub open spec fn code_error(code: Seq<u8>, limit: nat) -> Option<StellarSdkError> {
    if code.len() == 0 {
        Some(StellarSdkError::AssetCodeEmpty)
    } else if code.len() > limit {
        Some(StellarSdkError::AssetCodeTooLong)
    } else if !all_code_characters(code) {
        Some(StellarSdkError::InvalidAssetCodeCharacter)
    } else {
        None
    }
}

/// The asset with a code of at most four characters, the code being checked
/// before the issuer.
pub open spec fn alphanum4_asset(
    code: Seq<u8>,
    issuer: Result<AccountId, StellarSdkError>,
) -> Result<Asset, StellarSdkError> {
    match code_error(code, 4) {
        Some(e) => Err(e),
        None => match issuer {
            Err(e) => Err(e),
            Ok(issuer) => Ok(
                Asset::AssetTypeCreditAlphanum4(
                    AssetAlphaNum4 { asset_code: array_of::<4>(code), issuer },
                ),
            ),
        },
    }
}

/// The asset with a code of at most twelve characters, the code being
/// checked before the issuer.
pub open spec fn alphanum12_asset(
    code: Seq<u8>,
    issuer: Result<AccountId, StellarSdkError>,
) -> Result<Asset, StellarSdkError> {
    match code_error(code, 12) {
        Some(e) => Err(e),
        None => match issuer {
            Err(e) => Err(e),
            Ok(issuer) => Ok(
                Asset::AssetTypeCreditAlphanum12(
                    AssetAlphaNum12 { asset_code: array_of::<12>(code), issuer },
                ),
            ),
        },
    }
}

/// Checks that `code` is an asset code of at most `limit` characters.
pub fn check_asset_code(code: &[u8], limit: usize) -> (r: Result<(), StellarSdkError>)
    ensures
        match r {
            Ok(_) => code_error(code@, limit as nat) is None,
            Err(e) => code_error(code@, limit as nat) == Some(e),
        },
{
    if code.len() == 0 {
        return Err(StellarSdkError::AssetCodeEmpty);
    }
    if code.len() > limit {
        return Err(StellarSdkError::AssetCodeTooLong);
    }
    let mut i: usize = 0;
    while i < code.len()
        invariant
            i <= code.len(),
            0 < code.len() <= limit,
            forall|j: int| 0 <= j < i ==> is_code_character(#[trigger] code@[j]),
        decreases code.len() - i,
    {
        let character = code[i];
        let digit = 48 <= character && character <= 57;
        let upper = 65 <= character && character <= 90;
        let lower = 97 <= character && character <= 122;
        if !(digit || upper || lower) {
            assert(!is_code_character(code@[i as int]));
            return Err(StellarSdkError::InvalidAssetCodeCharacter);
        }
        i += 1;
    }
    Ok(())
}

impl Asset {
    /// The native asset.
    pub fn native() -> (r: Asset)
        ensures
            r == Asset::AssetTypeNative,
    {
        Asset::AssetTypeNative
    }

    /// An issued asset whose code has one to four characters.
    pub fn new_alphanum4<T: IntoAccountId>(code: &[u8], issuer: T) -> (r: Result<
        Asset,
        StellarSdkError,
    >)
        ensures
            r == alphanum4_asset(code@, issuer.account_id()),
            r matches Ok(asset) ==> asset_error(asset) is None,
    {
        proof {
            if code_error(code@, 4) is None {
                lemma_stored_code_is_valid::<4>(code@);
            }
        }
        match check_asset_code(code, 4) {
            Ok(_) => {},
            Err(e) => {
                return Err(e);
            },
        }
        let issuer = match issuer.into_account_id() {
            Ok(issuer) => issuer,
            Err(e) => {
                return Err(e);
            },
        };
        Ok(
            Asset::AssetTypeCreditAlphanum4(
                AssetAlphaNum4 { asset_code: padded_array(code), issuer },
            ),
        )
    }

    /// An issued asset whose code has one to twelve characters.
    pub fn new_alphanum12<T: IntoAccountId>(code: &[u8], issuer: T) -> (r: Result<
        Asset,
        StellarSdkError,
    >)
        ensures
            r == alphanum12_asset(code@, issuer.account_id()),
            r matches Ok(asset) ==> asset_error(asset) is None,
    {
        proof {
            if code_error(code@, 12) is None {
                lemma_stored_code_is_valid::<12>(code@);
            }
        }
        match check_asset_code(code, 12) {
            Ok(_) => {},
            Err(e) => {
                return Err(e);
            },
        }
        let issuer = match issuer.into_account_id() {
            Ok(issuer) => issuer,
            Err(e) => {
                return Err(e);
            },
        };
        Ok(
            Asset::AssetTypeCreditAlphanum12(
                AssetAlphaNum12 { asset_code: padded_array(code), issuer },
            ),
        )
    }

    /// An issued asset, with the shorter form of code where the code fits it.
    pub fn from_asset_code<T: IntoAccountId>(code: &[u8], issuer: T) -> (r: Result<
        Asset,
        StellarSdkError,
    >)
        ensures
            r == (if code@.len() <= 4 {
                alphanum4_asset(code@, issuer.account_id())
            } else {
                alphanum12_asset(code@, issuer.account_id())
            }),
            r matches Ok(asset) ==> asset_error(asset) is None,
    {
        if code.len() <= 4 {
            Self::new_alphanum4(code, issuer)
        } else {
            Self::new_alphanum12(code, issuer)
        }
    }
}

} // verus!

//! Accounts and signers, and their textual form.

use crate::bytes::{append, array_from, array_of, lemma_array_of};
use crate::error::StellarSdkError;
use crate::key_encoding::{
    decode_sized_key, decode_stellar_key, encode_stellar_key, lemma_key_decodes_from_its_encoding,
    sized_key_decoding, stellar_key_decoding, stellar_key_encoding,
    CLAIMABLE_BALANCE_VERSION_BYTE, ED25519_PUBLIC_KEY_VERSION_BYTE, MUXED_ACCOUNT_VERSION_BYTE,
    PRE_AUTH_TX_VERSION_BYTE, SHA256_HASH_VERSION_BYTE,
};
use crate::xdr::codec::{u64_at, u64_xdr, XdrCodec};
use crate::xdr::types::{
    AccountId, ClaimableBalanceId, MuxedAccount, MuxedAccountMed25519, PublicKey, SignatureHint,
    Signer, SignerKey, Uint256,
};
use vstd::prelude::*;

verus! {

/// The largest weight of a signer.
pub const MAX_SIGNER_WEIGHT: u32 = 255;

/// The public key that a text stands for, if it is the text of an account id.
pub open spec fn account_id_of_text(text: Seq<u8>) -> Result<PublicKey, StellarSdkError> {
    match sized_key_decoding(text, seq![ED25519_PUBLIC_KEY_VERSION_BYTE], 32) {
        Ok((_, payload)) => Ok(PublicKey::PublicKeyTypeEd25519(array_of::<32>(payload))),
        Err(e) => Err(e),
    }
}

/// The last four bytes of a key.
pub open spec fn hint_of(key: Uint256) -> SignatureHint {
    array_of::<4>(key@.subrange(28, 32))
}

impl PublicKey {
    /// The bytes of the key.
    pub open spec fn key(&self) -> Uint256 {
        match *self {
            PublicKey::PublicKeyTypeEd25519(key) => key,
        }
    }

    /// The text of the key as an account id.
    pub open spec fn encoding(&self) -> Seq<u8> {
        stellar_key_encoding(ED25519_PUBLIC_KEY_VERSION_BYTE, self.key()@)
    }

    /// The public key with the given bytes.
    pub fn from_binary(binary: Uint256) -> (r: PublicKey)
        ensures
            r == PublicKey::PublicKeyTypeEd25519(binary),
    {
        PublicKey::PublicKeyTypeEd25519(binary)
    }

    /// The bytes of the key.
    pub fn into_binary(self) -> (r: Uint256)
        ensures
            r == self.key(),
    {
        match self {
            PublicKey::PublicKeyTypeEd25519(key) => key,
        }
    }

    /// Reads an account id (`G...`).
    pub fn from_encoding(text: &[u8]) -> (r: Result<PublicKey, StellarSdkError>)
        ensures
            r == account_id_of_text(text@),
            r matches Ok(key) ==> key.encoding() == text@,
    {
        let versions = [ED25519_PUBLIC_KEY_VERSION_BYTE];
        assert(versions@ =~= seq![ED25519_PUBLIC_KEY_VERSION_BYTE]);
        match decode_sized_key::<32>(text, versions.as_slice()) {
            Ok((_, payload)) => {
                proof {
                    lemma_array_of::<32>(payload@);
                    assert(payload =~= array_of::<32>(payload@));
                }
                Ok(PublicKey::PublicKeyTypeEd25519(payload))
            },
            Err(e) => Err(e),
        }
    }

    /// Writes the key as an account id (`G...`).
    pub fn to_encoding(&self) -> (r: Vec<u8>)
        ensures
            r@ == self.encoding(),
    {
        match self {
            PublicKey::PublicKeyTypeEd25519(key) => encode_stellar_key(
                ED25519_PUBLIC_KEY_VERSION_BYTE,
                key.as_slice(),
            ),
        }
    }

    /// The hint by which signatures of this key are recognized.
    pub fn signature_hint(&self) -> (r: SignatureHint)
        ensures
            r == hint_of(self.key()),
    {
        match self {
            PublicKey::PublicKeyTypeEd25519(key) => {
                let hint: [u8; 4] = array_from(key.as_slice(), 28);
                proof {
                    lemma_array_of::<4>(key@.subrange(28, 32));
                    assert(hint =~= hint_of(*key));
                }
                hint
            },
        }
    }

    /// An account id is read back from its own text.
    pub proof fn lemma_from_encoding_of_encoding(self)
        ensures
            account_id_of_text(self.encoding()) == Ok::<PublicKey, StellarSdkError>(self),
    {
        let versions = seq![ED25519_PUBLIC_KEY_VERSION_BYTE];
        assert(versions[0] == ED25519_PUBLIC_KEY_VERSION_BYTE);
        lemma_key_decodes_from_its_encoding(ED25519_PUBLIC_KEY_VERSION_BYTE, self.key()@, versions);
        lemma_array_of::<32>(self.key()@);
        assert(array_of::<32>(self.key()@) =~= self.key());
    }
}

/// Anything that names an account.
pub trait IntoAccountId: Sized {
    /// The account that the value names, or why it names none.
    spec fn account_id(&self) -> Result<AccountId, StellarSdkError>;

    /// Converts the value into an account id.
    fn into_account_id(self) -> (r: Result<AccountId, StellarSdkError>)
        ensures
            r == self.account_id(),
    ;
}

impl IntoAccountId for AccountId {
    open spec fn account_id(&self) -> Result<AccountId, StellarSdkError> {
        Ok(*self)
    }

    fn into_account_id(self) -> (r: Result<AccountId, StellarSdkError>) {
        Ok(self)
    }
}

impl<'a> IntoAccountId for &'a [u8] {
    open spec fn account_id(&self) -> Result<AccountId, StellarSdkError> {
        account_id_of_text(self@)
    }

    fn into_account_id(self) -> (r: Result<AccountId, StellarSdkError>) {
        PublicKey::from_encoding(self)
    }
}

/// The payload of the text of a multiplexed account: the key, then the id.
pub open spec fn muxed_payload(account: MuxedAccountMed25519) -> Seq<u8> {
    account.ed25519@ + u64_xdr(account.id)
}

/// The account that a text stands for: an account id (`G...`) or a
/// multiplexed account (`M...`).
pub open spec fn muxed_account_of_text(text: Seq<u8>) -> Result<MuxedAccount, StellarSdkError> {
    match stellar_key_decoding(
        text,
        seq![ED25519_PUBLIC_KEY_VERSION_BYTE, MUXED_ACCOUNT_VERSION_BYTE],
    ) {
        Err(e) => Err(e),
        Ok((version, payload)) => if version == ED25519_PUBLIC_KEY_VERSION_BYTE {
            if payload.len() == 32 {
                Ok(MuxedAccount::KeyTypeEd25519(array_of::<32>(payload)))
            } else {
                Err(StellarSdkError::InvalidStellarKeyEncodingLength)
            }
        } else {
            if payload.len() == 40 {
                Ok(
                    MuxedAccount::KeyTypeMuxedEd25519(
                        MuxedAccountMed25519 {
                            id: u64_at(payload, 32),
                            ed25519: array_of::<32>(payload.take(32)),
                        },
                    ),
                )
            } else {
                Err(StellarSdkError::InvalidStellarKeyEncodingLength)
            }
        },
    }
}

impl MuxedAccount {
    /// The text of the account.
    pub open spec fn encoding(&self) -> Seq<u8> {
        match *self {
            MuxedAccount::KeyTypeEd25519(key) => stellar_key_encoding(
                ED25519_PUBLIC_KEY_VERSION_BYTE,
                key@,
            ),
            MuxedAccount::KeyTypeMuxedEd25519(account) => stellar_key_encoding(
                MUXED_ACCOUNT_VERSION_BYTE,
                muxed_payload(account),
            ),
        }
    }

    /// Reads an account from its text (`G...` or `M...`).
    pub fn from_encoding(text: &[u8]) -> (r: Result<MuxedAccount, StellarSdkError>)
        ensures
            r == muxed_account_of_text(text@),
    {
        let versions = [ED25519_PUBLIC_KEY_VERSION_BYTE, MUXED_ACCOUNT_VERSION_BYTE];
        assert(versions@ =~= seq![ED25519_PUBLIC_KEY_VERSION_BYTE, MUXED_ACCOUNT_VERSION_BYTE]);
        let key = match decode_stellar_key(text, versions.as_slice()) {
            Ok(key) => key,
            Err(e) => {
                return Err(e);
            },
        };
        if key.version == ED25519_PUBLIC_KEY_VERSION_BYTE {
            if key.payload.len() != 32 {
                return Err(StellarSdkError::InvalidStellarKeyEncodingLength);
            }
            let ed25519: [u8; 32] = array_from(key.payload.as_slice(), 0);
            proof {
                lemma_array_of::<32>(key.payload@);
                assert(key.payload@.subrange(0, 32) =~= key.payload@);
                assert(ed25519 =~= array_of::<32>(key.payload@));
            }
            Ok(MuxedAccount::KeyTypeEd25519(ed25519))
        } else {
            if key.payload.len() != 40 {
                return Err(StellarSdkError::InvalidStellarKeyEncodingLength);
            }
            let ed25519: [u8; 32] = array_from(key.payload.as_slice(), 0);
            let id = match u64::read_xdr(key.payload.as_slice(), 32) {
                Ok((id, _)) => id,
                Err(_) => {
                    return Err(StellarSdkError::InvalidStellarKeyEncodingLength);
                },
            };
            proof {
                lemma_array_of::<32>(key.payload@.take(32));
                assert(key.payload@.subrange(0, 32) =~= key.payload@.take(32));
                assert(ed25519 =~= array_of::<32>(key.payload@.take(32)));
            }
            Ok(MuxedAccount::KeyTypeMuxedEd25519(MuxedAccountMed25519 { id, ed25519 }))
        }
    }

    /// Writes the account as text (`G...` or `M...`).
    pub fn to_encoding(&self) -> (r: Vec<u8>)
        ensures
            r@ == self.encoding(),
    {
        match self {
            MuxedAccount::KeyTypeEd25519(key) => encode_stellar_key(
                ED25519_PUBLIC_KEY_VERSION_BYTE,
                key.as_slice(),
            ),
            MuxedAccount::KeyTypeMuxedEd25519(account) => {
                let mut payload: Vec<u8> = Vec::new();
                append(&mut payload, account.ed25519.as_slice());
                account.id.write_xdr(&mut payload);
                assert(payload@ =~= muxed_payload(*account));
                encode_stellar_key(MUXED_ACCOUNT_VERSION_BYTE, payload.as_slice())
            },
        }
    }

    /// An account is read back from its own text.
    pub proof fn lemma_from_encoding_of_encoding(self)
        ensures
            muxed_account_of_text(self.encoding()) == Ok::<MuxedAccount, StellarSdkError>(self),
    {
        let versions = seq![ED25519_PUBLIC_KEY_VERSION_BYTE, MUXED_ACCOUNT_VERSION_BYTE];
        assert(versions[0] == ED25519_PUBLIC_KEY_VERSION_BYTE);
        assert(versions[1] == MUXED_ACCOUNT_VERSION_BYTE);
        match self {
            MuxedAccount::KeyTypeEd25519(key) => {
                lemma_key_decodes_from_its_encoding(
                    ED25519_PUBLIC_KEY_VERSION_BYTE,
                    key@,
                    versions,
                );
                lemma_array_of::<32>(key@);
                assert(array_of::<32>(key@) =~= key);
            },
            MuxedAccount::KeyTypeMuxedEd25519(account) => {
                let payload = muxed_payload(account);
                lemma_key_decodes_from_its_encoding(MUXED_ACCOUNT_VERSION_BYTE, payload, versions);
                assert(payload.take(32) =~= account.ed25519@);
                lemma_array_of::<32>(account.ed25519@);
                assert(array_of::<32>(account.ed25519@) =~= account.ed25519);
                assert(payload.subrange(32, 40) =~= u64_xdr(account.id));
                u64::lemma_parse_of_xdr(account.id, payload, 32);
            },
        }
    }
}

/// Anything that names an account, plain or multiplexed.
pub trait IntoMuxedAccountId: Sized {
    /// The account that the value names, or why it names none.
    spec fn muxed_account_id(&self) -> Result<MuxedAccount, StellarSdkError>;

    /// Converts the value into an account.
    fn into_muxed_account_id(self) -> (r: Result<MuxedAccount, StellarSdkError>)
        ensures
            r == self.muxed_account_id(),
    ;
}

impl IntoMuxedAccountId for MuxedAccount {
    open spec fn muxed_account_id(&self) -> Result<MuxedAccount, StellarSdkError> {
        Ok(*self)
    }

    fn into_muxed_account_id(self) -> (r: Result<MuxedAccount, StellarSdkError>) {
        Ok(self)
    }
}

impl IntoMuxedAccountId for AccountId {
    open spec fn muxed_account_id(&self) -> Result<MuxedAccount, StellarSdkError> {
        Ok(MuxedAccount::KeyTypeEd25519(self.key()))
    }

    fn into_muxed_account_id(self) -> (r: Result<MuxedAccount, StellarSdkError>) {
        Ok(MuxedAccount::KeyTypeEd25519(self.into_binary()))
    }
}

impl<'a> IntoMuxedAccountId for &'a [u8] {
    open spec fn muxed_account_id(&self) -> Result<MuxedAccount, StellarSdkError> {
        muxed_account_of_text(self@)
    }

    fn into_muxed_account_id(self) -> (r: Result<MuxedAccount, StellarSdkError>) {
        MuxedAccount::from_encoding(self)
    }
}

/// The signer that a text stands for: a public key (`G...`), the hash of a
/// pre-authorized transaction (`T...`) or the hash of a preimage (`X...`).
pub open spec fn signer_key_of_text(text: Seq<u8>) -> Result<SignerKey, StellarSdkError> {
    match sized_key_decoding(
        text,
        seq![ED25519_PUBLIC_KEY_VERSION_BYTE, PRE_AUTH_TX_VERSION_BYTE, SHA256_HASH_VERSION_BYTE],
        32,
    ) {
        Err(e) => Err(e),
        Ok((version, payload)) => if version == ED25519_PUBLIC_KEY_VERSION_BYTE {
            Ok(SignerKey::SignerKeyTypeEd25519(array_of::<32>(payload)))
        } else if version == PRE_AUTH_TX_VERSION_BYTE {
            Ok(SignerKey::SignerKeyTypePreAuthTx(array_of::<32>(payload)))
        } else {
            Ok(SignerKey::SignerKeyTypeHashX(array_of::<32>(payload)))
        },
    }
}

impl SignerKey {
    /// The 32 bytes of the key or hash.
    pub open spec fn key(&self) -> Uint256 {
        match *self {
            SignerKey::SignerKeyTypeEd25519(key) => key,
            SignerKey::SignerKeyTypePreAuthTx(key) => key,
            SignerKey::SignerKeyTypeHashX(key) => key,
        }
    }

    /// The version byte of the text of the signer.
    pub open spec fn version(&self) -> u8 {
        match *self {
            SignerKey::SignerKeyTypeEd25519(_) => ED25519_PUBLIC_KEY_VERSION_BYTE,
            SignerKey::SignerKeyTypePreAuthTx(_) => PRE_AUTH_TX_VERSION_BYTE,
            SignerKey::SignerKeyTypeHashX(_) => SHA256_HASH_VERSION_BYTE,
        }
    }

    /// The text of the signer.
    pub open spec fn encoding(&self) -> Seq<u8> {
        stellar_key_encoding(self.version(), self.key()@)
    }

    /// Reads a signer from its text (`G...`, `T...` or `X...`).
    pub fn from_encoding(text: &[u8]) -> (r: Result<SignerKey, StellarSdkError>)
        ensures
            r == signer_key_of_text(text@),
    {
        let versions = [
            ED25519_PUBLIC_KEY_VERSION_BYTE,
            PRE_AUTH_TX_VERSION_BYTE,
            SHA256_HASH_VERSION_BYTE,
        ];
        assert(versions@ =~= seq![
            ED25519_PUBLIC_KEY_VERSION_BYTE,
            PRE_AUTH_TX_VERSION_BYTE,
            SHA256_HASH_VERSION_BYTE,
        ]);
        match decode_sized_key::<32>(text, versions.as_slice()) {
            Ok((version, payload)) => {
                proof {
                    lemma_array_of::<32>(payload@);
                    assert(payload =~= array_of::<32>(payload@));
                }
                if version == ED25519_PUBLIC_KEY_VERSION_BYTE {
                    Ok(SignerKey::SignerKeyTypeEd25519(payload))
                } else if version == PRE_AUTH_TX_VERSION_BYTE {
                    Ok(SignerKey::SignerKeyTypePreAuthTx(payload))
                } else {
                    Ok(SignerKey::SignerKeyTypeHashX(payload))
                }
            },
            Err(e) => Err(e),
        }
    }

    /// Writes the signer as text (`G...`, `T...` or `X...`).
    pub fn to_encoding(&self) -> (r: Vec<u8>)
        ensures
            r@ == self.encoding(),
    {
        match self {
            SignerKey::SignerKeyTypeEd25519(key) => encode_stellar_key(
                ED25519_PUBLIC_KEY_VERSION_BYTE,
                key.as_slice(),
            ),
            SignerKey::SignerKeyTypePreAuthTx(key) => encode_stellar_key(
                PRE_AUTH_TX_VERSION_BYTE,
                key.as_slice(),
            ),
            SignerKey::SignerKeyTypeHashX(key) => encode_stellar_key(
                SHA256_HASH_VERSION_BYTE,
                key.as_slice(),
            ),
        }
    }

    /// A signer is read back from its own text.
    pub proof fn lemma_from_encoding_of_encoding(self)
        ensures
            signer_key_of_text(self.encoding()) == Ok::<SignerKey, StellarSdkError>(self),
    {
        let versions = seq![
            ED25519_PUBLIC_KEY_VERSION_BYTE,
            PRE_AUTH_TX_VERSION_BYTE,
            SHA256_HASH_VERSION_BYTE,
        ];
        assert(versions[0] == ED25519_PUBLIC_KEY_VERSION_BYTE);
        assert(versions[1] == PRE_AUTH_TX_VERSION_BYTE);
        assert(versions[2] == SHA256_HASH_VERSION_BYTE);
        lemma_key_decodes_from_its_encoding(self.version(), self.key()@, versions);
        lemma_array_of::<32>(self.key()@);
        assert(array_of::<32>(self.key()@) =~= self.key());
    }

    /// The hint by which signatures of this signer are recognized.
    pub fn signature_hint(&self) -> (r: SignatureHint)
        ensures
            r == hint_of(self.key()),
    {
        let key = match self {
            SignerKey::SignerKeyTypeEd25519(key) => key,
            SignerKey::SignerKeyTypePreAuthTx(key) => key,
            SignerKey::SignerKeyTypeHashX(key) => key,
        };
        let hint: [u8; 4] = array_from(key.as_slice(), 28);
        proof {
            lemma_array_of::<4>(key@.subrange(28, 32));
            assert(hint =~= hint_of(*key));
        }
        hint
    }
}

impl Signer {
    /// A signer with the given weight, which must not exceed 255.
    pub fn new(key: SignerKey, weight: u32) -> (r: Result<Signer, StellarSdkError>)
        ensures
            r == (if weight <= MAX_SIGNER_WEIGHT {
                Ok::<Signer, StellarSdkError>(Signer { key, weight })
            } else {
                Err::<Signer, StellarSdkError>(StellarSdkError::InvalidSignerWeight)
            }),
    {
        if weight <= MAX_SIGNER_WEIGHT {
            Ok(Signer { key, weight })
        } else {
            Err(StellarSdkError::InvalidSignerWeight)
        }
    }
}

/// The payload of the text of a claimable balance id: a byte for the kind
/// of id, which is always 0, and the hash.
pub open spec fn balance_payload(id: ClaimableBalanceId) -> Seq<u8> {
    match id {
        ClaimableBalanceId::ClaimableBalanceIdTypeV0(hash) => seq![0u8] + hash@,
    }
}

/// The claimable balance id that a text (`B...`) stands for.
pub open spec fn balance_id_of_text(text: Seq<u8>) -> Result<ClaimableBalanceId, StellarSdkError> {
    match sized_key_decoding(text, seq![CLAIMABLE_BALANCE_VERSION_BYTE], 33) {
        Err(e) => Err(e),
        Ok((_, payload)) => if payload[0] == 0 {
            Ok(ClaimableBalanceId::ClaimableBalanceIdTypeV0(array_of::<32>(payload.skip(1))))
        } else {
            Err(StellarSdkError::InvalidBalanceId)
        },
    }
}

impl ClaimableBalanceId {
    /// The text of the id.
    pub open spec fn encoding(&self) -> Seq<u8> {
        stellar_key_encoding(CLAIMABLE_BALANCE_VERSION_BYTE, balance_payload(*self))
    }

    /// Reads a claimable balance id from its text (`B...`).
    pub fn from_encoding(text: &[u8]) -> (r: Result<ClaimableBalanceId, StellarSdkError>)
        ensures
            r == balance_id_of_text(text@),
    {
        let versions = [CLAIMABLE_BALANCE_VERSION_BYTE];
        assert(versions@ =~= seq![CLAIMABLE_BALANCE_VERSION_BYTE]);
        match decode_sized_key::<33>(text, versions.as_slice()) {
            Ok((_, payload)) => {
                if payload[0] != 0 {
                    return Err(StellarSdkError::InvalidBalanceId);
                }
                let hash: [u8; 32] = array_from(payload.as_slice(), 1);
                proof {
                    assert(payload@.subrange(1, 33) =~= payload@.skip(1));
                    lemma_array_of::<32>(payload@.skip(1));
                    assert(hash =~= array_of::<32>(payload@.skip(1)));
                }
                Ok(ClaimableBalanceId::ClaimableBalanceIdTypeV0(hash))
            },
            Err(e) => Err(e),
        }
    }

    /// Writes the id as text (`B...`).
    pub fn to_encoding(&self) -> (r: Vec<u8>)
        ensures
            r@ == self.encoding(),
    {
        match self {
            ClaimableBalanceId::ClaimableBalanceIdTypeV0(hash) => {
                let mut payload: Vec<u8> = Vec::new();
                payload.push(0);
                append(&mut payload, hash.as_slice());
                assert(payload@ =~= balance_payload(*self));
                encode_stellar_key(CLAIMABLE_BALANCE_VERSION_BYTE, payload.as_slice())
            },
        }
    }

    /// A claimable balance id is read back from its own text.
    pub proof fn lemma_from_encoding_of_encoding(self)
        ensures
            balance_id_of_text(self.encoding()) == Ok::<ClaimableBalanceId, StellarSdkError>(self),
    {
        let versions = seq![CLAIMABLE_BALANCE_VERSION_BYTE];
        assert(versions[0] == CLAIMABLE_BALANCE_VERSION_BYTE);
        let payload = balance_payload(self);
        lemma_key_decodes_from_its_encoding(CLAIMABLE_BALANCE_VERSION_BYTE, payload, versions);
        match self {
            ClaimableBalanceId::ClaimableBalanceIdTypeV0(hash) => {
                assert(payload.skip(1) =~= hash@);
                lemma_array_of::<32>(hash@);
                assert(array_of::<32>(hash@) =~= hash);
            },
        }
    }
}

impl<'a> crate::claimable_balance_id::IntoClaimbleBalanceId for &'a [u8] {
    /// The id that the text (`B...`) stands for.
    open spec fn claimable_balance_id(&self) -> Option<ClaimableBalanceId> {
        match balance_id_of_text(self@) {
            Ok(id) => Some(id),
            Err(_) => None,
        }
    }

    fn into_claimable_balance_id(self) -> (r: Result<ClaimableBalanceId, StellarSdkError>)
        ensures
            r == balance_id_of_text(self@),
    {
        ClaimableBalanceId::from_encoding(self)
    }
}

} // verus!

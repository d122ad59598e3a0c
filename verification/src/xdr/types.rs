//! The protocol's value types and their encodings.

use crate::error::XdrError;
use crate::xdr::codec::{holds_at, lemma_holds_at_concat, lemma_subrange_join, u32_xdr, XdrCodec};
use crate::xdr::opaque::{LimitedString, LimitedVarOpaque};
use vstd::prelude::*;

verus! {

/// 32 bytes: an ed25519 public key.
pub type Uint256 = [u8; 32];

/// 32 bytes: a SHA-256 hash.
pub type Hash = [u8; 32];

/// The last four bytes of a public key, by which a signature names its signer.
pub type SignatureHint = [u8; 4];

/// The bytes of a signature.
pub type Signature = LimitedVarOpaque<64>;

/// A tag followed by a payload stands at `start` if their concatenation does.
pub proof fn lemma_tagged_of_xdr<T: XdrCodec>(tag: u32, payload: T, input: Seq<u8>, start: usize)
    requires
        payload.wf(),
        input.len() <= usize::MAX,
        holds_at(input, start as int, u32_xdr(tag) + payload.xdr()),
    ensures
        u32::parse(input, start) == Ok::<(u32, usize), XdrError>((tag, (start + 4) as usize)),
        T::parse(input, (start + 4) as usize) == Ok::<(T, usize), XdrError>(
            (payload, (start + 4 + payload.xdr().len()) as usize),
        ),
{
    lemma_holds_at_concat(input, start as int, u32_xdr(tag), payload.xdr());
    u32::lemma_parse_of_xdr(tag, input, start);
    T::lemma_parse_of_xdr(payload, input, (start + 4) as usize);
}

/// A lone tag stands at `start`.
pub proof fn lemma_tag_of_xdr(tag: u32, input: Seq<u8>, start: usize)
    requires
        input.len() <= usize::MAX,
        holds_at(input, start as int, u32_xdr(tag)),
    ensures
        u32::parse(input, start) == Ok::<(u32, usize), XdrError>((tag, (start + 4) as usize)),
{
    u32::lemma_parse_of_xdr(tag, input, start);
}

/// What was read as a tag and a payload was written as their concatenation.
pub proof fn lemma_tagged_sound<T: XdrCodec>(input: Seq<u8>, start: usize)
    requires
        start <= input.len() <= usize::MAX,
    ensures
        u32::parse(input, start) matches Ok((tag, next)) ==> {
            &&& next == start + 4
            &&& next <= input.len()
            &&& input.subrange(start as int, next as int) == u32_xdr(tag)
            &&& T::parse(input, next) matches Ok((payload, end)) ==> {
                &&& payload.wf()
                &&& next <= end <= input.len()
                &&& input.subrange(start as int, end as int) == u32_xdr(tag) + payload.xdr()
            }
        },
{
    u32::lemma_parse_sound(input, start);
    if let Ok((tag, next)) = u32::parse(input, start) {
        T::lemma_parse_sound(input, next);
        if let Ok((payload, end)) = T::parse(input, next) {
            lemma_subrange_join(input, start as int, next as int, end as int);
        }
    }
}

/// A public key. Only ed25519 keys exist.
#[derive(Debug, Clone, Copy, PartialEq, Eq)]
pub enum PublicKey {
    /// An ed25519 key.
    PublicKeyTypeEd25519(Uint256),
}

impl XdrCodec for PublicKey {
    open spec fn wf(&self) -> bool {
        match *self {
            PublicKey::PublicKeyTypeEd25519(inner) => inner.wf(),
        }
    }

    open spec fn xdr(&self) -> Seq<u8> {
        match *self {
            PublicKey::PublicKeyTypeEd25519(inner) => u32_xdr(0) + inner.xdr(),
        }
    }

    open spec fn parse(input: Seq<u8>, start: usize) -> Result<(Self, usize), XdrError> {
        match u32::parse(input, start) {
            Err(e) => Err(e),
            Ok((tag, next)) => if tag == 0 {
                match <Uint256>::parse(input, next) {
                    Ok((inner, end)) => Ok((PublicKey::PublicKeyTypeEd25519(inner), end)),
                    Err(e) => Err(e),
                }
            } else {
                Err(XdrError::InvalidDiscriminator { at_position: start, found: tag })
            },
        }
    }

    proof fn lemma_parse_of_xdr(value: Self, input: Seq<u8>, start: usize) {
        match value {
            PublicKey::PublicKeyTypeEd25519(inner) => {
                lemma_tagged_of_xdr::<Uint256>(0, inner, input, start);
            },
        }
    }

    proof fn lemma_parse_sound(input: Seq<u8>, start: usize) {
        lemma_tagged_sound::<Uint256>(input, start);
    }

    fn write_xdr(&self, out: &mut Vec<u8>) {
        match self {
            PublicKey::PublicKeyTypeEd25519(inner) => {
                0u32.write_xdr(out);
                inner.write_xdr(out);
                assert(out@ =~= old(out)@ + (u32_xdr(0) + inner.xdr()));
            },
        }
    }

    fn read_xdr(input: &[u8], start: usize) -> (r: Result<(Self, usize), XdrError>) {
        let (tag, next) = match u32::read_xdr(input, start) {
            Ok(read) => read,
            Err(e) => {
                return Err(e);
            },
        };
        if tag == 0 {
            match <Uint256>::read_xdr(input, next) {
                Ok((inner, end)) => Ok((PublicKey::PublicKeyTypeEd25519(inner), end)),
                Err(e) => Err(e),
            }
        } else {
            Err(XdrError::InvalidDiscriminator { at_position: start, found: tag })
        }
    }
}

/// The id of an account: its public key.
pub type AccountId = PublicKey;

/// An account together with a number that tells apart users who share it.
#[derive(Debug, Clone, Copy, PartialEq, Eq)]
pub struct MuxedAccountMed25519 {
    /// The number chosen by the owner of the account.
    pub id: u64,
    /// The ed25519 key of the account.
    pub ed25519: Uint256,
}

impl XdrCodec for MuxedAccountMed25519 {
    open spec fn wf(&self) -> bool {
        (self.id, self.ed25519).wf()
    }

    open spec fn xdr(&self) -> Seq<u8> {
        (self.id, self.ed25519).xdr()
    }

    open spec fn parse(input: Seq<u8>, start: usize) -> Result<(Self, usize), XdrError> {
        match <(u64, Uint256)>::parse(input, start) {
            Ok(((id, ed25519), end)) => Ok((MuxedAccountMed25519 { id, ed25519 }, end)),
            Err(e) => Err(e),
        }
    }

    proof fn lemma_parse_of_xdr(value: Self, input: Seq<u8>, start: usize) {
        <(u64, Uint256)>::lemma_parse_of_xdr((value.id, value.ed25519), input, start);
    }

    proof fn lemma_parse_sound(input: Seq<u8>, start: usize) {
        <(u64, Uint256)>::lemma_parse_sound(input, start);
    }

    fn write_xdr(&self, out: &mut Vec<u8>) {
        self.id.write_xdr(out);
        self.ed25519.write_xdr(out);
        assert(out@ =~= old(out)@ + self.xdr());
    }

    fn read_xdr(input: &[u8], start: usize) -> (r: Result<(Self, usize), XdrError>) {
        match <(u64, Uint256)>::read_xdr(input, start) {
            Ok(((id, ed25519), end)) => Ok((MuxedAccountMed25519 { id, ed25519 }, end)),
            Err(e) => Err(e),
        }
    }
}

/// An account, plain or multiplexed.
#[derive(Debug, Clone, Copy, PartialEq, Eq)]
pub enum MuxedAccount {
    /// A plain account.
    KeyTypeEd25519(Uint256),
    /// A multiplexed account.
    KeyTypeMuxedEd25519(MuxedAccountMed25519),
}

impl XdrCodec for MuxedAccount {
    open spec fn wf(&self) -> bool {
        match *self {
            MuxedAccount::KeyTypeEd25519(inner) => inner.wf(),
            MuxedAccount::KeyTypeMuxedEd25519(inner) => inner.wf(),
        }
    }

    open spec fn xdr(&self) -> Seq<u8> {
        match *self {
            MuxedAccount::KeyTypeEd25519(inner) => u32_xdr(0) + inner.xdr(),
            MuxedAccount::KeyTypeMuxedEd25519(inner) => u32_xdr(256) + inner.xdr(),
        }
    }

    open spec fn parse(input: Seq<u8>, start: usize) -> Result<(Self, usize), XdrError> {
        match u32::parse(input, start) {
            Err(e) => Err(e),
            Ok((tag, next)) => if tag == 0 {
                match <Uint256>::parse(input, next) {
                    Ok((inner, end)) => Ok((MuxedAccount::KeyTypeEd25519(inner), end)),
                    Err(e) => Err(e),
                }
            } else if tag == 256 {
                match <MuxedAccountMed25519>::parse(input, next) {
                    Ok((inner, end)) => Ok((MuxedAccount::KeyTypeMuxedEd25519(inner), end)),
                    Err(e) => Err(e),
                }
            } else {
                Err(XdrError::InvalidDiscriminator { at_position: start, found: tag })
            },
        }
    }

    proof fn lemma_parse_of_xdr(value: Self, input: Seq<u8>, start: usize) {
        match value {
            MuxedAccount::KeyTypeEd25519(inner) => {
                lemma_tagged_of_xdr::<Uint256>(0, inner, input, start);
            },
            MuxedAccount::KeyTypeMuxedEd25519(inner) => {
                lemma_tagged_of_xdr::<MuxedAccountMed25519>(256, inner, input, start);
            },
        }
    }

    proof fn lemma_parse_sound(input: Seq<u8>, start: usize) {
        lemma_tagged_sound::<Uint256>(input, start);
        lemma_tagged_sound::<MuxedAccountMed25519>(input, start);
    }

    fn write_xdr(&self, out: &mut Vec<u8>) {
        match self {
            MuxedAccount::KeyTypeEd25519(inner) => {
                0u32.write_xdr(out);
                inner.write_xdr(out);
                assert(out@ =~= old(out)@ + (u32_xdr(0) + inner.xdr()));
            },
            MuxedAccount::KeyTypeMuxedEd25519(inner) => {
                256u32.write_xdr(out);
                inner.write_xdr(out);
                assert(out@ =~= old(out)@ + (u32_xdr(256) + inner.xdr()));
            },
        }
    }

    fn read_xdr(input: &[u8], start: usize) -> (r: Result<(Self, usize), XdrError>) {
        let (tag, next) = match u32::read_xdr(input, start) {
            Ok(read) => read,
            Err(e) => {
                return Err(e);
            },
        };
        if tag == 0 {
            match <Uint256>::read_xdr(input, next) {
                Ok((inner, end)) => Ok((MuxedAccount::KeyTypeEd25519(inner), end)),
                Err(e) => Err(e),
            }
        } else if tag == 256 {
            match <MuxedAccountMed25519>::read_xdr(input, next) {
                Ok((inner, end)) => Ok((MuxedAccount::KeyTypeMuxedEd25519(inner), end)),
                Err(e) => Err(e),
            }
        } else {
            Err(XdrError::InvalidDiscriminator { at_position: start, found: tag })
        }
    }
}

/// What may sign for an account.
#[derive(Debug, Clone, Copy, PartialEq, Eq)]
pub enum SignerKey {
    /// An ed25519 public key.
    SignerKeyTypeEd25519(Uint256),
    /// The hash of a transaction that is authorized in advance.
    SignerKeyTypePreAuthTx(Uint256),
    /// The hash of a value whose disclosure counts as a signature.
    SignerKeyTypeHashX(Uint256),
}

impl XdrCodec for SignerKey {
    open spec fn wf(&self) -> bool {
        match *self {
            SignerKey::SignerKeyTypeEd25519(inner) => inner.wf(),
            SignerKey::SignerKeyTypePreAuthTx(inner) => inner.wf(),
            SignerKey::SignerKeyTypeHashX(inner) => inner.wf(),
        }
    }

    open spec fn xdr(&self) -> Seq<u8> {
        match *self {
            SignerKey::SignerKeyTypeEd25519(inner) => u32_xdr(0) + inner.xdr(),
            SignerKey::SignerKeyTypePreAuthTx(inner) => u32_xdr(1) + inner.xdr(),
            SignerKey::SignerKeyTypeHashX(inner) => u32_xdr(2) + inner.xdr(),
        }
    }

    open spec fn parse(input: Seq<u8>, start: usize) -> Result<(Self, usize), XdrError> {
        match u32::parse(input, start) {
            Err(e) => Err(e),
            Ok((tag, next)) => if tag == 0 {
                match <Uint256>::parse(input, next) {
                    Ok((inner, end)) => Ok((SignerKey::SignerKeyTypeEd25519(inner), end)),
                    Err(e) => Err(e),
                }
            } else if tag == 1 {
                match <Uint256>::parse(input, next) {
                    Ok((inner, end)) => Ok((SignerKey::SignerKeyTypePreAuthTx(inner), end)),
                    Err(e) => Err(e),
                }
            } else if tag == 2 {
                match <Uint256>::parse(input, next) {
                    Ok((inner, end)) => Ok((SignerKey::SignerKeyTypeHashX(inner), end)),
                    Err(e) => Err(e),
                }
            } else {
                Err(XdrError::InvalidDiscriminator { at_position: start, found: tag })
            },
        }
    }

    proof fn lemma_parse_of_xdr(value: Self, input: Seq<u8>, start: usize) {
        match value {
            SignerKey::SignerKeyTypeEd25519(inner) => {
                lemma_tagged_of_xdr::<Uint256>(0, inner, input, start);
            },
            SignerKey::SignerKeyTypePreAuthTx(inner) => {
                lemma_tagged_of_xdr::<Uint256>(1, inner, input, start);
            },
            SignerKey::SignerKeyTypeHashX(inner) => {
                lemma_tagged_of_xdr::<Uint256>(2, inner, input, start);
            },
        }
    }

    proof fn lemma_parse_sound(input: Seq<u8>, start: usize) {
        lemma_tagged_sound::<Uint256>(input, start);
    }

    fn write_xdr(&self, out: &mut Vec<u8>) {
        match self {
            SignerKey::SignerKeyTypeEd25519(inner) => {
                0u32.write_xdr(out);
                inner.write_xdr(out);
                assert(out@ =~= old(out)@ + (u32_xdr(0) + inner.xdr()));
            },
            SignerKey::SignerKeyTypePreAuthTx(inner) => {
                1u32.write_xdr(out);
                inner.write_xdr(out);
                assert(out@ =~= old(out)@ + (u32_xdr(1) + inner.xdr()));
            },
            SignerKey::SignerKeyTypeHashX(inner) => {
                2u32.write_xdr(out);
                inner.write_xdr(out);
                assert(out@ =~= old(out)@ + (u32_xdr(2) + inner.xdr()));
            },
        }
    }

    fn read_xdr(input: &[u8], start: usize) -> (r: Result<(Self, usize), XdrError>) {
        let (tag, next) = match u32::read_xdr(input, start) {
            Ok(read) => read,
            Err(e) => {
                return Err(e);
            },
        };
        if tag == 0 {
            match <Uint256>::read_xdr(input, next) {
                Ok((inner, end)) => Ok((SignerKey::SignerKeyTypeEd25519(inner), end)),
                Err(e) => Err(e),
            }
        } else if tag == 1 {
            match <Uint256>::read_xdr(input, next) {
                Ok((inner, end)) => Ok((SignerKey::SignerKeyTypePreAuthTx(inner), end)),
                Err(e) => Err(e),
            }
        } else if tag == 2 {
            match <Uint256>::read_xdr(input, next) {
                Ok((inner, end)) => Ok((SignerKey::SignerKeyTypeHashX(inner), end)),
                Err(e) => Err(e),
            }
        } else {
            Err(XdrError::InvalidDiscriminator { at_position: start, found: tag })
        }
    }
}

/// A signer of an account and the weight of its signature.
#[derive(Debug, Clone, Copy, PartialEq, Eq)]
pub struct Signer {
    /// Who signs.
    pub key: SignerKey,
    /// What the signature counts for, 0 to 255.
    pub weight: u32,
}

impl XdrCodec for Signer {
    open spec fn wf(&self) -> bool {
        (self.key, self.weight).wf()
    }

    open spec fn xdr(&self) -> Seq<u8> {
        (self.key, self.weight).xdr()
    }

    open spec fn parse(input: Seq<u8>, start: usize) -> Result<(Self, usize), XdrError> {
        match <(SignerKey, u32)>::parse(input, start) {
            Ok(((key, weight), end)) => Ok((Signer { key, weight }, end)),
            Err(e) => Err(e),
        }
    }

    proof fn lemma_parse_of_xdr(value: Self, input: Seq<u8>, start: usize) {
        <(SignerKey, u32)>::lemma_parse_of_xdr((value.key, value.weight), input, start);
    }

    proof fn lemma_parse_sound(input: Seq<u8>, start: usize) {
        <(SignerKey, u32)>::lemma_parse_sound(input, start);
    }

    fn write_xdr(&self, out: &mut Vec<u8>) {
        self.key.write_xdr(out);
        self.weight.write_xdr(out);
        assert(out@ =~= old(out)@ + self.xdr());
    }

    fn read_xdr(input: &[u8], start: usize) -> (r: Result<(Self, usize), XdrError>) {
        match <(SignerKey, u32)>::read_xdr(input, start) {
            Ok(((key, weight), end)) => Ok((Signer { key, weight }, end)),
            Err(e) => Err(e),
        }
    }
}

/// An issued asset with a code of up to four characters.
#[derive(Debug, Clone, Copy, PartialEq, Eq)]
pub struct AssetAlphaNum4 {
    /// The code, filled up with zero bytes.
    pub asset_code: [u8; 4],
    /// The account that issues the asset.
    pub issuer: AccountId,
}

impl XdrCodec for AssetAlphaNum4 {
    open spec fn wf(&self) -> bool {
        (self.asset_code, self.issuer).wf()
    }

    open spec fn xdr(&self) -> Seq<u8> {
        (self.asset_code, self.issuer).xdr()
    }

    open spec fn parse(input: Seq<u8>, start: usize) -> Result<(Self, usize), XdrError> {
        match <([u8; 4], AccountId)>::parse(input, start) {
            Ok(((asset_code, issuer), end)) => Ok((AssetAlphaNum4 { asset_code, issuer }, end)),
            Err(e) => Err(e),
        }
    }

    proof fn lemma_parse_of_xdr(value: Self, input: Seq<u8>, start: usize) {
        <([u8; 4], AccountId)>::lemma_parse_of_xdr((value.asset_code, value.issuer), input, start);
    }

    proof fn lemma_parse_sound(input: Seq<u8>, start: usize) {
        <([u8; 4], AccountId)>::lemma_parse_sound(input, start);
    }

    fn write_xdr(&self, out: &mut Vec<u8>) {
        self.asset_code.write_xdr(out);
        self.issuer.write_xdr(out);
        assert(out@ =~= old(out)@ + self.xdr());
    }

    fn read_xdr(input: &[u8], start: usize) -> (r: Result<(Self, usize), XdrError>) {
        match <([u8; 4], AccountId)>::read_xdr(input, start) {
            Ok(((asset_code, issuer), end)) => Ok((AssetAlphaNum4 { asset_code, issuer }, end)),
            Err(e) => Err(e),
        }
    }
}

/// An issued asset with a code of five to twelve characters.
#[derive(Debug, Clone, Copy, PartialEq, Eq)]
pub struct AssetAlphaNum12 {
    /// The code, filled up with zero bytes.
    pub asset_code: [u8; 12],
    /// The account that issues the asset.
    pub issuer: AccountId,
}

impl XdrCodec for AssetAlphaNum12 {
    open spec fn wf(&self) -> bool {
        (self.asset_code, self.issuer).wf()
    }

    open spec fn xdr(&self) -> Seq<u8> {
        (self.asset_code, self.issuer).xdr()
    }

    open spec fn parse(input: Seq<u8>, start: usize) -> Result<(Self, usize), XdrError> {
        match <([u8; 12], AccountId)>::parse(input, start) {
            Ok(((asset_code, issuer), end)) => Ok((AssetAlphaNum12 { asset_code, issuer }, end)),
            Err(e) => Err(e),
        }
    }

    proof fn lemma_parse_of_xdr(value: Self, input: Seq<u8>, start: usize) {
        <([u8; 12], AccountId)>::lemma_parse_of_xdr((value.asset_code, value.issuer), input, start);
    }

    proof fn lemma_parse_sound(input: Seq<u8>, start: usize) {
        <([u8; 12], AccountId)>::lemma_parse_sound(input, start);
    }

    fn write_xdr(&self, out: &mut Vec<u8>) {
        self.asset_code.write_xdr(out);
        self.issuer.write_xdr(out);
        assert(out@ =~= old(out)@ + self.xdr());
    }

    fn read_xdr(input: &[u8], start: usize) -> (r: Result<(Self, usize), XdrError>) {
        match <([u8; 12], AccountId)>::read_xdr(input, start) {
            Ok(((asset_code, issuer), end)) => Ok((AssetAlphaNum12 { asset_code, issuer }, end)),
            Err(e) => Err(e),
        }
    }
}

/// An asset: the native one, or one issued by an account.
#[derive(Debug, Clone, Copy, PartialEq, Eq)]
pub enum Asset {
    /// The native asset of the network.
    AssetTypeNative,
    /// An issued asset with a short code.
    AssetTypeCreditAlphanum4(AssetAlphaNum4),
    /// An issued asset with a long code.
    AssetTypeCreditAlphanum12(AssetAlphaNum12),
}

impl XdrCodec for Asset {
    open spec fn wf(&self) -> bool {
        match *self {
            Asset::AssetTypeNative => true,
            Asset::AssetTypeCreditAlphanum4(inner) => inner.wf(),
            Asset::AssetTypeCreditAlphanum12(inner) => inner.wf(),
        }
    }

    open spec fn xdr(&self) -> Seq<u8> {
        match *self {
            Asset::AssetTypeNative => u32_xdr(0),
            Asset::AssetTypeCreditAlphanum4(inner) => u32_xdr(1) + inner.xdr(),
            Asset::AssetTypeCreditAlphanum12(inner) => u32_xdr(2) + inner.xdr(),
        }
    }

    open spec fn parse(input: Seq<u8>, start: usize) -> Result<(Self, usize), XdrError> {
        match u32::parse(input, start) {
            Err(e) => Err(e),
            Ok((tag, next)) => if tag == 0 {
                Ok((Asset::AssetTypeNative, next))
            } else if tag == 1 {
                match <AssetAlphaNum4>::parse(input, next) {
                    Ok((inner, end)) => Ok((Asset::AssetTypeCreditAlphanum4(inner), end)),
                    Err(e) => Err(e),
                }
            } else if tag == 2 {
                match <AssetAlphaNum12>::parse(input, next) {
                    Ok((inner, end)) => Ok((Asset::AssetTypeCreditAlphanum12(inner), end)),
                    Err(e) => Err(e),
                }
            } else {
                Err(XdrError::InvalidDiscriminator { at_position: start, found: tag })
            },
        }
    }

    proof fn lemma_parse_of_xdr(value: Self, input: Seq<u8>, start: usize) {
        match value {
            Asset::AssetTypeNative => {
                lemma_tag_of_xdr(0, input, start);
            },
            Asset::AssetTypeCreditAlphanum4(inner) => {
                lemma_tagged_of_xdr::<AssetAlphaNum4>(1, inner, input, start);
            },
            Asset::AssetTypeCreditAlphanum12(inner) => {
                lemma_tagged_of_xdr::<AssetAlphaNum12>(2, inner, input, start);
            },
        }
    }

    proof fn lemma_parse_sound(input: Seq<u8>, start: usize) {
        lemma_tagged_sound::<AssetAlphaNum4>(input, start);
        lemma_tagged_sound::<AssetAlphaNum12>(input, start);
    }

    fn write_xdr(&self, out: &mut Vec<u8>) {
        match self {
            Asset::AssetTypeNative => {
                0u32.write_xdr(out);
            },
            Asset::AssetTypeCreditAlphanum4(inner) => {
                1u32.write_xdr(out);
                inner.write_xdr(out);
                assert(out@ =~= old(out)@ + (u32_xdr(1) + inner.xdr()));
            },
            Asset::AssetTypeCreditAlphanum12(inner) => {
                2u32.write_xdr(out);
                inner.write_xdr(out);
                assert(out@ =~= old(out)@ + (u32_xdr(2) + inner.xdr()));
            },
        }
    }

    fn read_xdr(input: &[u8], start: usize) -> (r: Result<(Self, usize), XdrError>) {
        let (tag, next) = match u32::read_xdr(input, start) {
            Ok(read) => read,
            Err(e) => {
                return Err(e);
            },
        };
        if tag == 0 {
            Ok((Asset::AssetTypeNative, next))
        } else if tag == 1 {
            match <AssetAlphaNum4>::read_xdr(input, next) {
                Ok((inner, end)) => Ok((Asset::AssetTypeCreditAlphanum4(inner), end)),
                Err(e) => Err(e),
            }
        } else if tag == 2 {
            match <AssetAlphaNum12>::read_xdr(input, next) {
                Ok((inner, end)) => Ok((Asset::AssetTypeCreditAlphanum12(inner), end)),
                Err(e) => Err(e),
            }
        } else {
            Err(XdrError::InvalidDiscriminator { at_position: start, found: tag })
        }
    }
}

/// The code of an issued asset without its issuer.
#[derive(Debug, Clone, Copy, PartialEq, Eq)]
pub enum AssetCode {
    /// A code of up to four characters, filled up with zero bytes.
    AssetTypeCreditAlphanum4([u8; 4]),
    /// A code of up to twelve characters, filled up with zero bytes.
    AssetTypeCreditAlphanum12([u8; 12]),
}

impl XdrCodec for AssetCode {
    open spec fn wf(&self) -> bool {
        match *self {
            AssetCode::AssetTypeCreditAlphanum4(inner) => inner.wf(),
            AssetCode::AssetTypeCreditAlphanum12(inner) => inner.wf(),
        }
    }

    open spec fn xdr(&self) -> Seq<u8> {
        match *self {
            AssetCode::AssetTypeCreditAlphanum4(inner) => u32_xdr(1) + inner.xdr(),
            AssetCode::AssetTypeCreditAlphanum12(inner) => u32_xdr(2) + inner.xdr(),
        }
    }

    open spec fn parse(input: Seq<u8>, start: usize) -> Result<(Self, usize), XdrError> {
        match u32::parse(input, start) {
            Err(e) => Err(e),
            Ok((tag, next)) => if tag == 1 {
                match <[u8; 4]>::parse(input, next) {
                    Ok((inner, end)) => Ok((AssetCode::AssetTypeCreditAlphanum4(inner), end)),
                    Err(e) => Err(e),
                }
            } else if tag == 2 {
                match <[u8; 12]>::parse(input, next) {
                    Ok((inner, end)) => Ok((AssetCode::AssetTypeCreditAlphanum12(inner), end)),
                    Err(e) => Err(e),
                }
            } else {
                Err(XdrError::InvalidDiscriminator { at_position: start, found: tag })
            },
        }
    }

    proof fn lemma_parse_of_xdr(value: Self, input: Seq<u8>, start: usize) {
        match value {
            AssetCode::AssetTypeCreditAlphanum4(inner) => {
                lemma_tagged_of_xdr::<[u8; 4]>(1, inner, input, start);
            },
            AssetCode::AssetTypeCreditAlphanum12(inner) => {
                lemma_tagged_of_xdr::<[u8; 12]>(2, inner, input, start);
            },
        }
    }

    proof fn lemma_parse_sound(input: Seq<u8>, start: usize) {
        lemma_tagged_sound::<[u8; 4]>(input, start);
        lemma_tagged_sound::<[u8; 12]>(input, start);
    }

    fn write_xdr(&self, out: &mut Vec<u8>) {
        match self {
            AssetCode::AssetTypeCreditAlphanum4(inner) => {
                1u32.write_xdr(out);
                inner.write_xdr(out);
                assert(out@ =~= old(out)@ + (u32_xdr(1) + inner.xdr()));
            },
            AssetCode::AssetTypeCreditAlphanum12(inner) => {
                2u32.write_xdr(out);
                inner.write_xdr(out);
                assert(out@ =~= old(out)@ + (u32_xdr(2) + inner.xdr()));
            },
        }
    }

    fn read_xdr(input: &[u8], start: usize) -> (r: Result<(Self, usize), XdrError>) {
        let (tag, next) = match u32::read_xdr(input, start) {
            Ok(read) => read,
            Err(e) => {
                return Err(e);
            },
        };
        if tag == 1 {
            match <[u8; 4]>::read_xdr(input, next) {
                Ok((inner, end)) => Ok((AssetCode::AssetTypeCreditAlphanum4(inner), end)),
                Err(e) => Err(e),
            }
        } else if tag == 2 {
            match <[u8; 12]>::read_xdr(input, next) {
                Ok((inner, end)) => Ok((AssetCode::AssetTypeCreditAlphanum12(inner), end)),
                Err(e) => Err(e),
            }
        } else {
            Err(XdrError::InvalidDiscriminator { at_position: start, found: tag })
        }
    }
}

/// A price as a fraction.
#[derive(Debug, Clone, Copy, PartialEq, Eq)]
pub struct Price {
    /// The numerator.
    pub n: i32,
    /// The denominator.
    pub d: i32,
}

impl XdrCodec for Price {
    open spec fn wf(&self) -> bool {
        (self.n, self.d).wf()
    }

    open spec fn xdr(&self) -> Seq<u8> {
        (self.n, self.d).xdr()
    }

    open spec fn parse(input: Seq<u8>, start: usize) -> Result<(Self, usize), XdrError> {
        match <(i32, i32)>::parse(input, start) {
            Ok(((n, d), end)) => Ok((Price { n, d }, end)),
            Err(e) => Err(e),
        }
    }

    proof fn lemma_parse_of_xdr(value: Self, input: Seq<u8>, start: usize) {
        <(i32, i32)>::lemma_parse_of_xdr((value.n, value.d), input, start);
    }

    proof fn lemma_parse_sound(input: Seq<u8>, start: usize) {
        <(i32, i32)>::lemma_parse_sound(input, start);
    }

    fn write_xdr(&self, out: &mut Vec<u8>) {
        self.n.write_xdr(out);
        self.d.write_xdr(out);
        assert(out@ =~= old(out)@ + self.xdr());
    }

    fn read_xdr(input: &[u8], start: usize) -> (r: Result<(Self, usize), XdrError>) {
        match <(i32, i32)>::read_xdr(input, start) {
            Ok(((n, d), end)) => Ok((Price { n, d }, end)),
            Err(e) => Err(e),
        }
    }
}

/// The period in which a transaction is valid, in seconds since 1970.
#[derive(Debug, Clone, Copy, PartialEq, Eq)]
pub struct TimeBounds {
    /// The earliest time, 0 for none.
    pub min_time: u64,
    /// The latest time, 0 for none.
    pub max_time: u64,
}

impl XdrCodec for TimeBounds {
    open spec fn wf(&self) -> bool {
        (self.min_time, self.max_time).wf()
    }

    open spec fn xdr(&self) -> Seq<u8> {
        (self.min_time, self.max_time).xdr()
    }

    open spec fn parse(input: Seq<u8>, start: usize) -> Result<(Self, usize), XdrError> {
        match <(u64, u64)>::parse(input, start) {
            Ok(((min_time, max_time), end)) => Ok((TimeBounds { min_time, max_time }, end)),
            Err(e) => Err(e),
        }
    }

    proof fn lemma_parse_of_xdr(value: Self, input: Seq<u8>, start: usize) {
        <(u64, u64)>::lemma_parse_of_xdr((value.min_time, value.max_time), input, start);
    }

    proof fn lemma_parse_sound(input: Seq<u8>, start: usize) {
        <(u64, u64)>::lemma_parse_sound(input, start);
    }

    fn write_xdr(&self, out: &mut Vec<u8>) {
        self.min_time.write_xdr(out);
        self.max_time.write_xdr(out);
        assert(out@ =~= old(out)@ + self.xdr());
    }

    fn read_xdr(input: &[u8], start: usize) -> (r: Result<(Self, usize), XdrError>) {
        match <(u64, u64)>::read_xdr(input, start) {
            Ok(((min_time, max_time), end)) => Ok((TimeBounds { min_time, max_time }, end)),
            Err(e) => Err(e),
        }
    }
}

/// A note attached to a transaction.
#[derive(Debug, Clone, Copy, PartialEq, Eq)]
pub enum Memo {
    /// No note.
    MemoNone,
    /// A text of at most 28 bytes.
    MemoText(LimitedString<28>),
    /// A number.
    MemoId(u64),
    /// A hash.
    MemoHash(Hash),
    /// The hash of a transaction that is being refunded.
    MemoReturn(Hash),
}

impl XdrCodec for Memo {
    open spec fn wf(&self) -> bool {
        match *self {
            Memo::MemoNone => true,
            Memo::MemoText(inner) => inner.wf(),
            Memo::MemoId(inner) => inner.wf(),
            Memo::MemoHash(inner) => inner.wf(),
            Memo::MemoReturn(inner) => inner.wf(),
        }
    }

    open spec fn xdr(&self) -> Seq<u8> {
        match *self {
            Memo::MemoNone => u32_xdr(0),
            Memo::MemoText(inner) => u32_xdr(1) + inner.xdr(),
            Memo::MemoId(inner) => u32_xdr(2) + inner.xdr(),
            Memo::MemoHash(inner) => u32_xdr(3) + inner.xdr(),
            Memo::MemoReturn(inner) => u32_xdr(4) + inner.xdr(),
        }
    }

    open spec fn parse(input: Seq<u8>, start: usize) -> Result<(Self, usize), XdrError> {
        match u32::parse(input, start) {
            Err(e) => Err(e),
            Ok((tag, next)) => if tag == 0 {
                Ok((Memo::MemoNone, next))
            } else if tag == 1 {
                match <LimitedString<28>>::parse(input, next) {
                    Ok((inner, end)) => Ok((Memo::MemoText(inner), end)),
                    Err(e) => Err(e),
                }
            } else if tag == 2 {
                match <u64>::parse(input, next) {
                    Ok((inner, end)) => Ok((Memo::MemoId(inner), end)),
                    Err(e) => Err(e),
                }
            } else if tag == 3 {
                match <Hash>::parse(input, next) {
                    Ok((inner, end)) => Ok((Memo::MemoHash(inner), end)),
                    Err(e) => Err(e),
                }
            } else if tag == 4 {
                match <Hash>::parse(input, next) {
                    Ok((inner, end)) => Ok((Memo::MemoReturn(inner), end)),
                    Err(e) => Err(e),
                }
            } else {
                Err(XdrError::InvalidDiscriminator { at_position: start, found: tag })
            },
        }
    }

    proof fn lemma_parse_of_xdr(value: Self, input: Seq<u8>, start: usize) {
        match value {
            Memo::MemoNone => {
                lemma_tag_of_xdr(0, input, start);
            },
            Memo::MemoText(inner) => {
                lemma_tagged_of_xdr::<LimitedString<28>>(1, inner, input, start);
            },
            Memo::MemoId(inner) => {
                lemma_tagged_of_xdr::<u64>(2, inner, input, start);
            },
            Memo::MemoHash(inner) => {
                lemma_tagged_of_xdr::<Hash>(3, inner, input, start);
            },
            Memo::MemoReturn(inner) => {
                lemma_tagged_of_xdr::<Hash>(4, inner, input, start);
            },
        }
    }

    proof fn lemma_parse_sound(input: Seq<u8>, start: usize) {
        lemma_tagged_sound::<LimitedString<28>>(input, start);
        lemma_tagged_sound::<u64>(input, start);
        lemma_tagged_sound::<Hash>(input, start);
    }

    fn write_xdr(&self, out: &mut Vec<u8>) {
        match self {
            Memo::MemoNone => {
                0u32.write_xdr(out);
            },
            Memo::MemoText(inner) => {
                1u32.write_xdr(out);
                inner.write_xdr(out);
                assert(out@ =~= old(out)@ + (u32_xdr(1) + inner.xdr()));
            },
            Memo::MemoId(inner) => {
                2u32.write_xdr(out);
                inner.write_xdr(out);
                assert(out@ =~= old(out)@ + (u32_xdr(2) + inner.xdr()));
            },
            Memo::MemoHash(inner) => {
                3u32.write_xdr(out);
                inner.write_xdr(out);
                assert(out@ =~= old(out)@ + (u32_xdr(3) + inner.xdr()));
            },
            Memo::MemoReturn(inner) => {
                4u32.write_xdr(out);
                inner.write_xdr(out);
                assert(out@ =~= old(out)@ + (u32_xdr(4) + inner.xdr()));
            },
        }
    }

    fn read_xdr(input: &[u8], start: usize) -> (r: Result<(Self, usize), XdrError>) {
        let (tag, next) = match u32::read_xdr(input, start) {
            Ok(read) => read,
            Err(e) => {
                return Err(e);
            },
        };
        if tag == 0 {
            Ok((Memo::MemoNone, next))
        } else if tag == 1 {
            match <LimitedString<28>>::read_xdr(input, next) {
                Ok((inner, end)) => Ok((Memo::MemoText(inner), end)),
                Err(e) => Err(e),
            }
        } else if tag == 2 {
            match <u64>::read_xdr(input, next) {
                Ok((inner, end)) => Ok((Memo::MemoId(inner), end)),
                Err(e) => Err(e),
            }
        } else if tag == 3 {
            match <Hash>::read_xdr(input, next) {
                Ok((inner, end)) => Ok((Memo::MemoHash(inner), end)),
                Err(e) => Err(e),
            }
        } else if tag == 4 {
            match <Hash>::read_xdr(input, next) {
                Ok((inner, end)) => Ok((Memo::MemoReturn(inner), end)),
                Err(e) => Err(e),
            }
        } else {
            Err(XdrError::InvalidDiscriminator { at_position: start, found: tag })
        }
    }
}

/// A signature and the hint that names its signer.
#[derive(Debug, Clone, Copy, PartialEq, Eq)]
pub struct DecoratedSignature {
    /// The last four bytes of the signer's public key.
    pub hint: SignatureHint,
    /// The signature.
    pub signature: Signature,
}

impl XdrCodec for DecoratedSignature {
    open spec fn wf(&self) -> bool {
        (self.hint, self.signature).wf()
    }

    open spec fn xdr(&self) -> Seq<u8> {
        (self.hint, self.signature).xdr()
    }

    open spec fn parse(input: Seq<u8>, start: usize) -> Result<(Self, usize), XdrError> {
        match <(SignatureHint, Signature)>::parse(input, start) {
            Ok(((hint, signature), end)) => Ok((DecoratedSignature { hint, signature }, end)),
            Err(e) => Err(e),
        }
    }

    proof fn lemma_parse_of_xdr(value: Self, input: Seq<u8>, start: usize) {
        <(SignatureHint, Signature)>::lemma_parse_of_xdr(
            (value.hint, value.signature),
            input,
            start,
        );
    }

    proof fn lemma_parse_sound(input: Seq<u8>, start: usize) {
        <(SignatureHint, Signature)>::lemma_parse_sound(input, start);
    }

    fn write_xdr(&self, out: &mut Vec<u8>) {
        self.hint.write_xdr(out);
        self.signature.write_xdr(out);
        assert(out@ =~= old(out)@ + self.xdr());
    }

    fn read_xdr(input: &[u8], start: usize) -> (r: Result<(Self, usize), XdrError>) {
        match <(SignatureHint, Signature)>::read_xdr(input, start) {
            Ok(((hint, signature), end)) => Ok((DecoratedSignature { hint, signature }, end)),
            Err(e) => Err(e),
        }
    }
}

/// The id of a claimable balance.
#[derive(Debug, Clone, Copy, PartialEq, Eq)]
pub enum ClaimableBalanceId {
    /// The hash that identifies the balance.
    ClaimableBalanceIdTypeV0(Hash),
}

impl XdrCodec for ClaimableBalanceId {
    open spec fn wf(&self) -> bool {
        match *self {
            ClaimableBalanceId::ClaimableBalanceIdTypeV0(inner) => inner.wf(),
        }
    }

    open spec fn xdr(&self) -> Seq<u8> {
        match *self {
            ClaimableBalanceId::ClaimableBalanceIdTypeV0(inner) => u32_xdr(0) + inner.xdr(),
        }
    }

    open spec fn parse(input: Seq<u8>, start: usize) -> Result<(Self, usize), XdrError> {
        match u32::parse(input, start) {
            Err(e) => Err(e),
            Ok((tag, next)) => if tag == 0 {
                match <Hash>::parse(input, next) {
                    Ok((inner, end)) => Ok(
                        (ClaimableBalanceId::ClaimableBalanceIdTypeV0(inner), end),
                    ),
                    Err(e) => Err(e),
                }
            } else {
                Err(XdrError::InvalidDiscriminator { at_position: start, found: tag })
            },
        }
    }

    proof fn lemma_parse_of_xdr(value: Self, input: Seq<u8>, start: usize) {
        match value {
            ClaimableBalanceId::ClaimableBalanceIdTypeV0(inner) => {
                lemma_tagged_of_xdr::<Hash>(0, inner, input, start);
            },
        }
    }

    proof fn lemma_parse_sound(input: Seq<u8>, start: usize) {
        lemma_tagged_sound::<Hash>(input, start);
    }

    fn write_xdr(&self, out: &mut Vec<u8>) {
        match self {
            ClaimableBalanceId::ClaimableBalanceIdTypeV0(inner) => {
                0u32.write_xdr(out);
                inner.write_xdr(out);
                assert(out@ =~= old(out)@ + (u32_xdr(0) + inner.xdr()));
            },
        }
    }

    fn read_xdr(input: &[u8], start: usize) -> (r: Result<(Self, usize), XdrError>) {
        let (tag, next) = match u32::read_xdr(input, start) {
            Ok(read) => read,
            Err(e) => {
                return Err(e);
            },
        };
        if tag == 0 {
            match <Hash>::read_xdr(input, next) {
                Ok((inner, end)) => Ok((ClaimableBalanceId::ClaimableBalanceIdTypeV0(inner), end)),
                Err(e) => Err(e),
            }
        } else {
            Err(XdrError::InvalidDiscriminator { at_position: start, found: tag })
        }
    }
}

/// Room for later extensions of a transaction. None exists yet.
#[derive(Debug, Clone, Copy, PartialEq, Eq)]
pub enum TransactionExt {
    /// No extension.
    V0,
}

impl XdrCodec for TransactionExt {
    open spec fn wf(&self) -> bool {
        match *self {
            TransactionExt::V0 => true,
        }
    }

    open spec fn xdr(&self) -> Seq<u8> {
        match *self {
            TransactionExt::V0 => u32_xdr(0),
        }
    }

    open spec fn parse(input: Seq<u8>, start: usize) -> Result<(Self, usize), XdrError> {
        match u32::parse(input, start) {
            Err(e) => Err(e),
            Ok((tag, next)) => if tag == 0 {
                Ok((TransactionExt::V0, next))
            } else {
                Err(XdrError::InvalidDiscriminator { at_position: start, found: tag })
            },
        }
    }

    proof fn lemma_parse_of_xdr(value: Self, input: Seq<u8>, start: usize) {
        match value {
            TransactionExt::V0 => {
                lemma_tag_of_xdr(0, input, start);
            },
        }
    }

    proof fn lemma_parse_sound(input: Seq<u8>, start: usize) {
        u32::lemma_parse_sound(input, start);
    }

    fn write_xdr(&self, out: &mut Vec<u8>) {
        match self {
            TransactionExt::V0 => {
                0u32.write_xdr(out);
            },
        }
    }

    fn read_xdr(input: &[u8], start: usize) -> (r: Result<(Self, usize), XdrError>) {
        let (tag, next) = match u32::read_xdr(input, start) {
            Ok(read) => read,
            Err(e) => {
                return Err(e);
            },
        };
        if tag == 0 {
            Ok((TransactionExt::V0, next))
        } else {
            Err(XdrError::InvalidDiscriminator { at_position: start, found: tag })
        }
    }
}

} // verus!

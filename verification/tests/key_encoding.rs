use substrate_stellar_sdk::base32;
use substrate_stellar_sdk::crc::checksum;
use substrate_stellar_sdk::error::StellarSdkError;
use substrate_stellar_sdk::key_encoding::{
    decode_sized_key, decode_stellar_key, encode_stellar_key, ED25519_PUBLIC_KEY_VERSION_BYTE,
    MUXED_ACCOUNT_VERSION_BYTE, PRE_AUTH_TX_VERSION_BYTE,
};
use substrate_stellar_sdk::keys::{IntoAccountId, IntoMuxedAccountId};
use substrate_stellar_sdk::claimable_balance_id::IntoClaimbleBalanceId;
use substrate_stellar_sdk::xdr::types::{
    ClaimableBalanceId, MuxedAccount, MuxedAccountMed25519, PublicKey, SignerKey,
};


fn sample_key() -> [u8; 32] {
    let mut key = [0u8; 32];
    for (i, byte) in key.iter_mut().enumerate() {
        *byte = i as u8;
    }
    key
}

const SAMPLE_ACCOUNT: &[u8] = b"GAAACAQDAQCQMBYIBEFAWDANBYHRAEISCMKBKFQXDAMRUGY4DUPB6N5H";
const ZERO_ACCOUNT: &[u8] = b"GAAAAAAAAAAAAAAAAAAAAAAAAAAAAAAAAAAAAAAAAAAAAAAAAAAABZKY";
const SAMPLE_MUXED: &[u8] =
    b"MAAACAQDAQCQMBYIBEFAWDANBYHRAEISCMKBKFQXDAMRUGY4DUPB6AICAMCAKBQHBDU6I";
const SAMPLE_PRE_AUTH: &[u8] = b"TAAACAQDAQCQMBYIBEFAWDANBYHRAEISCMKBKFQXDAMRUGY4DUPB6ZSR";
const SAMPLE_HASH_X: &[u8] = b"XAAACAQDAQCQMBYIBEFAWDANBYHRAEISCMKBKFQXDAMRUGY4DUPB7X6B";

#[test]
fn checksum_of_the_standard_check_text() {
    assert_eq!(checksum(b"123456789"), 0x31c3);
    assert_eq!(checksum(b""), 0);
}

#[test]
fn checksum_changes_with_every_single_bit() {
    let data = sample_key();
    let intact = checksum(&data);
    for index in 0..data.len() {
        for bit in 0..8 {
            let mut damaged = data;
            damaged[index] ^= 1 << bit;
            assert_ne!(checksum(&damaged), intact);
        }
    }
}

#[test]
fn base32_matches_the_published_vectors() {
    assert_eq!(base32::encode(b""), b"".to_vec());
    assert_eq!(base32::encode(b"f"), b"MY".to_vec());
    assert_eq!(base32::encode(b"fo"), b"MZXQ".to_vec());
    assert_eq!(base32::encode(b"foo"), b"MZXW6".to_vec());
    assert_eq!(base32::encode(b"foob"), b"MZXW6YQ".to_vec());
    assert_eq!(base32::encode(b"fooba"), b"MZXW6YTB".to_vec());
    assert_eq!(base32::encode(b"foobar"), b"MZXW6YTBOI".to_vec());
}

#[test]
fn base32_decodes_what_it_encodes() {
    for length in 0..40usize {
        let data: Vec<u8> = (0..length).map(|i| (i * 37 + 11) as u8).collect();
        let text = base32::encode(&data);
        assert_eq!(base32::decode(&text), Ok(data));
    }
}

#[test]
fn base32_reports_the_first_foreign_character() {
    assert_eq!(
        base32::decode(b"MZ1W6"),
        Err(StellarSdkError::InvalidBase32Character { at_position: 2 })
    );
    assert_eq!(
        base32::decode(b"mzxw6"),
        Err(StellarSdkError::InvalidBase32Character { at_position: 0 })
    );
    assert_eq!(
        base32::decode(b"MZXW6="),
        Err(StellarSdkError::InvalidBase32Character { at_position: 5 })
    );
}

#[test]
fn key_text_has_version_payload_and_big_endian_checksum() {
    let key = sample_key();
    assert_eq!(encode_stellar_key(ED25519_PUBLIC_KEY_VERSION_BYTE, &key), SAMPLE_ACCOUNT.to_vec());
    assert_eq!(
        encode_stellar_key(ED25519_PUBLIC_KEY_VERSION_BYTE, &[0u8; 32]),
        ZERO_ACCOUNT.to_vec()
    );
    assert_eq!(encode_stellar_key(PRE_AUTH_TX_VERSION_BYTE, &key), SAMPLE_PRE_AUTH.to_vec());
    let bytes = base32::decode(SAMPLE_ACCOUNT).unwrap();
    assert_eq!(bytes.len(), 35);
    assert_eq!(bytes[0], 48);
    assert_eq!(&bytes[1..33], &key[..]);
    let crc = checksum(&bytes[..33]);
    assert_eq!(crc, 14247);
    assert_eq!(bytes[33], (crc >> 8) as u8);
    assert_eq!(bytes[34], (crc & 0xff) as u8);
}

#[test]
fn key_round_trip() {
    let key = sample_key();
    let decoded = decode_stellar_key(SAMPLE_ACCOUNT, &[ED25519_PUBLIC_KEY_VERSION_BYTE]).unwrap();
    assert_eq!(decoded.version, ED25519_PUBLIC_KEY_VERSION_BYTE);
    assert_eq!(decoded.payload, key.to_vec());
    assert_eq!(
        decode_sized_key::<32>(SAMPLE_ACCOUNT, &[ED25519_PUBLIC_KEY_VERSION_BYTE]),
        Ok((ED25519_PUBLIC_KEY_VERSION_BYTE, key))
    );
    for length in [0usize, 1, 5, 32, 33, 40, 64] {
        let payload: Vec<u8> = (0..length).map(|i| (i * 13 + 7) as u8).collect();
        let text = encode_stellar_key(MUXED_ACCOUNT_VERSION_BYTE, &payload);
        let decoded = decode_stellar_key(&text, &[48, MUXED_ACCOUNT_VERSION_BYTE]).unwrap();
        assert_eq!(decoded.version, MUXED_ACCOUNT_VERSION_BYTE);
        assert_eq!(decoded.payload, payload);
    }
}

#[test]
fn decoded_key_encodes_to_the_same_text() {
    for text in [SAMPLE_ACCOUNT, ZERO_ACCOUNT, SAMPLE_PRE_AUTH, SAMPLE_MUXED] {
        let key = decode_stellar_key(text, &[48, 96, 152]).unwrap();
        assert_eq!(encode_stellar_key(key.version, &key.payload), text.to_vec());
    }
}

#[test]
fn key_with_a_flipped_bit_fails_with_a_checksum_error() {
    let key = sample_key();
    let mut body = vec![ED25519_PUBLIC_KEY_VERSION_BYTE];
    body.extend_from_slice(&key);
    let crc = checksum(&body);
    for index in 0..body.len() {
        for bit in 0..8 {
            let mut damaged = body.clone();
            damaged[index] ^= 1 << bit;
            let expected = checksum(&damaged);
            damaged.push((crc >> 8) as u8);
            damaged.push((crc & 0xff) as u8);
            let text = base32::encode(&damaged);
            assert_eq!(
                decode_stellar_key(&text, &[ED25519_PUBLIC_KEY_VERSION_BYTE]),
                Err(StellarSdkError::InvalidStellarKeyChecksum { expected, found: crc })
            );
        }
    }
}

#[test]
fn key_with_an_altered_last_character_never_decodes() {
    let alphabet = b"ABCDEFGHIJKLMNOPQRSTUVWXYZ234567";
    let last = SAMPLE_ACCOUNT.len() - 1;
    for &character in alphabet.iter().chain(b"0189=a".iter()) {
        if character == SAMPLE_ACCOUNT[last] {
            continue;
        }
        let mut text = SAMPLE_ACCOUNT.to_vec();
        text[last] = character;
        let outcome = decode_stellar_key(&text, &[ED25519_PUBLIC_KEY_VERSION_BYTE]);
        assert!(matches!(
            outcome,
            Err(StellarSdkError::InvalidStellarKeyChecksum { .. })
                | Err(StellarSdkError::InvalidBase32Character { .. })
        ));
    }
}

#[test]
fn key_errors_are_told_apart() {
    let versions = [ED25519_PUBLIC_KEY_VERSION_BYTE];
    assert_eq!(
        decode_stellar_key(b"GAAA!AAA", &versions),
        Err(StellarSdkError::InvalidBase32Character { at_position: 4 })
    );
    // The last character carries bits that the decoded bytes do not hold.
    assert_eq!(
        decode_stellar_key(b"GAAAAAB", &versions),
        Err(StellarSdkError::InvalidStellarKeyEncoding)
    );
    assert_eq!(
        decode_stellar_key(b"GA", &versions),
        Err(StellarSdkError::InvalidStellarKeyEncodingLength)
    );
    assert_eq!(
        decode_stellar_key(SAMPLE_PRE_AUTH, &versions),
        Err(StellarSdkError::InvalidStellarKeyEncodingVersion {
            expected_version: 'G',
            found_version: 'T'
        })
    );
    assert_eq!(
        decode_sized_key::<32>(SAMPLE_MUXED, &[MUXED_ACCOUNT_VERSION_BYTE]),
        Err(StellarSdkError::InvalidStellarKeyEncodingLength)
    );
}

#[test]
fn account_id_text_round_trip() {
    let account = PublicKey::from_binary(sample_key());
    assert_eq!(account.to_encoding(), SAMPLE_ACCOUNT.to_vec());
    assert_eq!(PublicKey::from_encoding(SAMPLE_ACCOUNT), Ok(account));
    assert_eq!(SAMPLE_ACCOUNT.into_account_id(), Ok(account));
    assert_eq!(account.into_account_id(), Ok(account));
    assert_eq!(account.signature_hint(), [28, 29, 30, 31]);
    assert!(matches!(
        PublicKey::from_encoding(SAMPLE_PRE_AUTH),
        Err(StellarSdkError::InvalidStellarKeyEncodingVersion { .. })
    ));
}

#[test]
fn muxed_account_text_round_trip() {
    let plain = MuxedAccount::KeyTypeEd25519(sample_key());
    assert_eq!(plain.to_encoding(), SAMPLE_ACCOUNT.to_vec());
    assert_eq!(MuxedAccount::from_encoding(SAMPLE_ACCOUNT), Ok(plain));
    let muxed = MuxedAccount::KeyTypeMuxedEd25519(MuxedAccountMed25519 {
        id: 0x0102030405060708,
        ed25519: sample_key(),
    });
    assert_eq!(muxed.to_encoding(), SAMPLE_MUXED.to_vec());
    assert_eq!(MuxedAccount::from_encoding(SAMPLE_MUXED), Ok(muxed));
    assert_eq!(SAMPLE_MUXED.into_muxed_account_id(), Ok(muxed));
    assert_eq!(PublicKey::from_binary(sample_key()).into_muxed_account_id(), Ok(plain));
    assert!(matches!(
        MuxedAccount::from_encoding(SAMPLE_PRE_AUTH),
        Err(StellarSdkError::InvalidStellarKeyEncodingVersion { .. })
    ));
}

#[test]
fn signer_key_text_round_trip() {
    let cases = [
        (SignerKey::SignerKeyTypeEd25519(sample_key()), SAMPLE_ACCOUNT),
        (SignerKey::SignerKeyTypePreAuthTx(sample_key()), SAMPLE_PRE_AUTH),
        (SignerKey::SignerKeyTypeHashX(sample_key()), SAMPLE_HASH_X),
    ];
    for (signer, text) in cases {
        assert_eq!(signer.to_encoding(), text.to_vec());
        assert_eq!(SignerKey::from_encoding(text), Ok(signer));
    }
    assert_eq!(
        SignerKey::from_encoding(SAMPLE_MUXED),
        Err(StellarSdkError::InvalidStellarKeyEncodingVersion {
            expected_version: 'G',
            found_version: 'M'
        })
    );
}

#[test]
fn claimable_balance_id_text_round_trip() {
    let id = ClaimableBalanceId::ClaimableBalanceIdTypeV0([0xab; 32]);
    let text = b"BAAKXK5LVOV2XK5LVOV2XK5LVOV2XK5LVOV2XK5LVOV2XK5LVOV2XK5L2Q";
    assert_eq!(id.to_encoding(), text.to_vec());
    assert_eq!(ClaimableBalanceId::from_encoding(text), Ok(id));
    assert_eq!((&text[..]).into_claimable_balance_id(), Ok(id));
    let mut payload = vec![1u8];
    payload.extend_from_slice(&[0xab; 32]);
    let other_kind = encode_stellar_key(8, &payload);
    assert_eq!(
        ClaimableBalanceId::from_encoding(&other_kind),
        Err(StellarSdkError::InvalidBalanceId)
    );
    assert_eq!(
        ClaimableBalanceId::from_encoding(SAMPLE_ACCOUNT),
        Err(StellarSdkError::InvalidStellarKeyEncodingVersion {
            expected_version: 'B',
            found_version: 'G'
        })
    );
}

#[test]
fn key_with_any_altered_character_never_decodes() {
    let alphabet = b"ABCDEFGHIJKLMNOPQRSTUVWXYZ234567";
    for text in [SAMPLE_ACCOUNT, SAMPLE_MUXED, SAMPLE_PRE_AUTH] {
        for position in 0..text.len() {
            for &character in alphabet.iter() {
                if character == text[position] {
                    continue;
                }
                let mut altered = text.to_vec();
                altered[position] = character;
                assert!(decode_stellar_key(&altered, &[48, 96, 152, 184, 8, 144, 120]).is_err());
            }
        }
    }
}

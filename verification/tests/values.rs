use substrate_stellar_sdk::amount::{check_stroops, parse_amount, IntoAmount, StroopAmount};
use substrate_stellar_sdk::asset::check_asset_code;
use substrate_stellar_sdk::error::StellarSdkError;
use substrate_stellar_sdk::validity::check_claimant_count;
use substrate_stellar_sdk::xdr::types::{
    Asset, AssetAlphaNum12, AssetAlphaNum4, Memo, Price, PublicKey, Signer, SignerKey,
};

const ISSUER: &[u8] = b"GAAACAQDAQCQMBYIBEFAWDANBYHRAEISCMKBKFQXDAMRUGY4DUPB6N5H";

fn issuer_key() -> [u8; 32] {
    let mut key = [0u8; 32];
    for (i, byte) in key.iter_mut().enumerate() {
        *byte = i as u8;
    }
    key
}

#[test]
fn amount_is_scaled_by_ten_million() {
    assert_eq!(parse_amount(b"10.5000000", false), Ok(105_000_000));
    assert_eq!(parse_amount(b"1", false), Ok(10_000_000));
    assert_eq!(parse_amount(b"0.0000001", false), Ok(1));
    assert_eq!(parse_amount(b"0.1", false), Ok(1_000_000));
    assert_eq!(parse_amount(b"007.25", false), Ok(72_500_000));
    assert_eq!(parse_amount(b"0", true), Ok(0));
    assert_eq!(parse_amount(b"0.0", true), Ok(0));
    assert_eq!(parse_amount(b"-0", true), Ok(0));
}

#[test]
fn amount_at_the_64_bit_boundary() {
    assert_eq!(parse_amount(b"922337203685.4775807", false), Ok(i64::MAX));
    assert_eq!(
        parse_amount(b"922337203685.4775808", false),
        Err(StellarSdkError::AmountOverflow)
    );
    assert_eq!(parse_amount(b"922337203686", false), Err(StellarSdkError::AmountOverflow));
    assert_eq!(
        parse_amount(b"99999999999999999999999999999999999999", true),
        Err(StellarSdkError::AmountOverflow)
    );
    assert_eq!(
        parse_amount(b"-922337203685.4775808", true),
        Err(StellarSdkError::AmountOverflow)
    );
    assert_eq!(
        parse_amount(b"000000000000000000000000000000000000001", false),
        Ok(10_000_000)
    );
}

#[test]
fn amount_text_that_is_no_number_is_refused() {
    for text in [
        &b""[..],
        b".",
        b".5",
        b"1.",
        b"1.12345678",
        b"1,5",
        b"1.2.3",
        b"abc",
        b"1e5",
        b"+1",
        b"-",
        b"--1",
        b" 1",
        b"1 ",
    ] {
        assert_eq!(parse_amount(text, true), Err(StellarSdkError::InvalidAmountString));
        assert_eq!(parse_amount(text, false), Err(StellarSdkError::InvalidAmountString));
    }
}

#[test]
fn amount_sign_depends_on_the_context() {
    assert_eq!(parse_amount(b"0", false), Err(StellarSdkError::AmountNonPositive));
    assert_eq!(parse_amount(b"0.0000000", false), Err(StellarSdkError::AmountNonPositive));
    assert_eq!(parse_amount(b"-1", false), Err(StellarSdkError::AmountNonPositive));
    assert_eq!(parse_amount(b"-1", true), Err(StellarSdkError::AmountNegative));
    assert_eq!(parse_amount(b"-0.0000001", true), Err(StellarSdkError::AmountNegative));
    assert_eq!(check_stroops(5, false), Ok(5));
    assert_eq!(check_stroops(0, true), Ok(0));
    assert_eq!(check_stroops(0, false), Err(StellarSdkError::AmountNonPositive));
    assert_eq!(check_stroops(-1, true), Err(StellarSdkError::AmountNegative));
    assert_eq!(check_stroops(i64::MIN, false), Err(StellarSdkError::AmountNonPositive));
    assert_eq!(StroopAmount(7).into_stroop_amount(false), Ok(7));
    assert_eq!((&b"2.5"[..]).into_stroop_amount(false), Ok(25_000_000));
}

#[test]
fn price_with_a_small_exact_form_is_found_exactly() {
    assert_eq!(Price::approximate(1, 3), Ok(Price { n: 1, d: 3 }));
    assert_eq!(Price::approximate(2, 6), Ok(Price { n: 1, d: 3 }));
    assert_eq!(Price::approximate(333_333_333_333, 999_999_999_999), Ok(Price { n: 1, d: 3 }));
    assert_eq!(Price::approximate(7, 1), Ok(Price { n: 7, d: 1 }));
    assert_eq!(Price::approximate(25, 100), Ok(Price { n: 1, d: 4 }));
    assert_eq!(
        Price::approximate(0x7fff_ffff, 0x7fff_fffe),
        Ok(Price { n: 0x7fff_ffff, d: 0x7fff_fffe })
    );
    assert_eq!(
        Price::approximate(2 * 0x7fff_ffff, 2 * 0x7fff_fffe),
        Ok(Price { n: 0x7fff_ffff, d: 0x7fff_fffe })
    );
}

#[test]
fn price_of_a_ratio_without_small_form_is_close() {
    let numerator: u64 = 3_141_592_653_589_793;
    let denominator: u64 = 1_000_000_000_000_000;
    let price = Price::approximate(numerator, denominator).unwrap();
    assert_eq!(price, Price { n: 732_133_415, d: 233_045_304 });
    let left = numerator as i128 * price.d as i128;
    let right = denominator as i128 * price.n as i128;
    assert!((left - right).abs() * (price.d as i128) < denominator as i128);
    assert_eq!(
        Price::approximate(1_000_000_000_000_000_001, 3_000_000_000_000_000_000),
        Ok(Price { n: 1, d: 3 })
    );
}

#[test]
fn price_that_cannot_be_approximated() {
    assert_eq!(Price::approximate(1, 0), Err(StellarSdkError::NotApproximableAsFraction));
    assert_eq!(Price::approximate(0, 5), Err(StellarSdkError::NotApproximableAsFraction));
    assert_eq!(Price::approximate(0, 0), Err(StellarSdkError::NotApproximableAsFraction));
    assert_eq!(Price::approximate(1 << 40, 1), Err(StellarSdkError::NotApproximableAsFraction));
    assert_eq!(Price::approximate(1, 1 << 40), Err(StellarSdkError::NotApproximableAsFraction));
}

#[test]
fn price_from_a_fraction() {
    assert_eq!(Price::from_fraction(1, 2), Ok(Price { n: 1, d: 2 }));
    assert_eq!(Price::from_fraction(0, 2), Err(StellarSdkError::InvalidPrice));
    assert_eq!(Price::from_fraction(1, 0), Err(StellarSdkError::InvalidPrice));
    assert_eq!(Price::from_fraction(-1, 2), Err(StellarSdkError::InvalidPrice));
    assert_eq!(Price::from_fraction(1, -2), Err(StellarSdkError::InvalidPrice));
}

#[test]
fn asset_code_bounds() {
    let issuer = PublicKey::from_binary(issuer_key());
    assert_eq!(Asset::native(), Asset::AssetTypeNative);
    assert_eq!(
        Asset::new_alphanum4(b"USD", issuer),
        Ok(Asset::AssetTypeCreditAlphanum4(AssetAlphaNum4 { asset_code: *b"USD\0", issuer }))
    );
    assert_eq!(
        Asset::new_alphanum4(b"EURT", ISSUER),
        Ok(Asset::AssetTypeCreditAlphanum4(AssetAlphaNum4 { asset_code: *b"EURT", issuer }))
    );
    assert_eq!(Asset::new_alphanum4(b"EURTX", issuer), Err(StellarSdkError::AssetCodeTooLong));
    assert_eq!(
        Asset::new_alphanum12(b"EURTX", issuer),
        Ok(Asset::AssetTypeCreditAlphanum12(AssetAlphaNum12 {
            asset_code: *b"EURTX\0\0\0\0\0\0\0",
            issuer
        }))
    );
    assert_eq!(
        Asset::new_alphanum12(b"ABCDEFGHIJKL", issuer),
        Ok(Asset::AssetTypeCreditAlphanum12(AssetAlphaNum12 {
            asset_code: *b"ABCDEFGHIJKL",
            issuer
        }))
    );
    assert_eq!(
        Asset::new_alphanum12(b"ABCDEFGHIJKLM", issuer),
        Err(StellarSdkError::AssetCodeTooLong)
    );
    assert_eq!(Asset::new_alphanum4(b"", issuer), Err(StellarSdkError::AssetCodeEmpty));
    assert_eq!(Asset::new_alphanum12(b"", issuer), Err(StellarSdkError::AssetCodeEmpty));
}

#[test]
fn asset_code_characters_and_issuer() {
    let issuer = PublicKey::from_binary(issuer_key());
    assert_eq!(
        Asset::new_alphanum4(b"U$D", issuer),
        Err(StellarSdkError::InvalidAssetCodeCharacter)
    );
    assert_eq!(
        Asset::new_alphanum12(b"EUR TX", issuer),
        Err(StellarSdkError::InvalidAssetCodeCharacter)
    );
    assert_eq!(check_asset_code(b"aZ09", 4), Ok(()));
    assert_eq!(check_asset_code(b"a-b", 4), Err(StellarSdkError::InvalidAssetCodeCharacter));
    // The code is checked before the issuer.
    assert_eq!(
        Asset::new_alphanum4(b"TOOLONG", &b"not a key"[..]),
        Err(StellarSdkError::AssetCodeTooLong)
    );
    assert!(matches!(
        Asset::new_alphanum4(b"USD", &b"GAAA"[..]),
        Err(StellarSdkError::InvalidStellarKeyEncoding)
            | Err(StellarSdkError::InvalidStellarKeyEncodingLength)
            | Err(StellarSdkError::InvalidStellarKeyChecksum { .. })
    ));
    assert_eq!(
        Asset::from_asset_code(b"USD", issuer),
        Asset::new_alphanum4(b"USD", issuer)
    );
    assert_eq!(
        Asset::from_asset_code(b"USDCOIN", issuer),
        Asset::new_alphanum12(b"USDCOIN", issuer)
    );
    assert_eq!(
        Asset::from_asset_code(b"ABCDEFGHIJKLM", issuer),
        Err(StellarSdkError::AssetCodeTooLong)
    );
}

#[test]
fn memo_bounds() {
    assert_eq!(Memo::none(), Memo::MemoNone);
    assert_eq!(Memo::from_id(7), Memo::MemoId(7));
    let text = [b'a'; 28];
    match Memo::from_text(&text) {
        Ok(Memo::MemoText(held)) => assert_eq!(held.to_vec(), text.to_vec()),
        other => panic!("unexpected {:?}", other),
    }
    assert_eq!(
        Memo::from_text(&[b'a'; 29]),
        Err(StellarSdkError::ExceedsMaximumLength { requested_length: 29, allowed_length: 28 })
    );
    assert_eq!(Memo::from_hash(&[7u8; 32]), Ok(Memo::MemoHash([7u8; 32])));
    assert_eq!(Memo::from_return_hash(&[7u8; 32]), Ok(Memo::MemoReturn([7u8; 32])));
    assert_eq!(
        Memo::from_hash(&[7u8; 31]),
        Err(StellarSdkError::InvalidHashLength { found_length: 31, expected_length: 32 })
    );
    assert_eq!(
        Memo::from_return_hash(&[7u8; 33]),
        Err(StellarSdkError::InvalidHashLength { found_length: 33, expected_length: 32 })
    );
}

#[test]
fn signer_weight_bounds() {
    let key = SignerKey::SignerKeyTypeEd25519(issuer_key());
    assert_eq!(Signer::new(key, 0), Ok(Signer { key, weight: 0 }));
    assert_eq!(Signer::new(key, 255), Ok(Signer { key, weight: 255 }));
    assert_eq!(Signer::new(key, 256), Err(StellarSdkError::InvalidSignerWeight));
    assert_eq!(key.signature_hint(), [28, 29, 30, 31]);
    assert_eq!(SignerKey::SignerKeyTypeHashX([9u8; 32]).signature_hint(), [9, 9, 9, 9]);
}

#[test]
fn claimable_balance_needs_between_1_and_10_claimants() {
    assert_eq!(check_claimant_count(0), Err(StellarSdkError::EmptyClaimants));
    assert_eq!(check_claimant_count(1), Ok(()));
    assert_eq!(check_claimant_count(10), Ok(()));
    assert_eq!(
        check_claimant_count(11),
        Err(StellarSdkError::ExceedsMaximumLength { requested_length: 11, allowed_length: 10 })
    );
}

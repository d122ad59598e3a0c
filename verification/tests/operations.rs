use substrate_stellar_sdk::amount::StroopAmount;
use substrate_stellar_sdk::binary::AsBinary;
use substrate_stellar_sdk::claimable_balance_id::IntoClaimbleBalanceId;
use substrate_stellar_sdk::error::StellarSdkError;
use substrate_stellar_sdk::operations::manage_data::AsDataValue;
use substrate_stellar_sdk::validity::{check_asset, check_operation};
use substrate_stellar_sdk::xdr::codec::{encode, XdrCodec};
use substrate_stellar_sdk::xdr::opaque::LimitedString;
use substrate_stellar_sdk::xdr::operation::{
    AllowTrustOp, BumpSequenceOp, ChangeTrustOp, ClaimClaimableBalanceOp, CreateAccountOp,
    ManageDataOp, ManageSellOfferOp, Operation, OperationBody, PaymentOp, SetOptionsOp,
};
use substrate_stellar_sdk::xdr::types::{
    Asset, AssetAlphaNum4, AssetCode, ClaimableBalanceId, MuxedAccount, Price, PublicKey, Signer,
    SignerKey,
};


const ACCOUNT: &[u8] = b"GAAACAQDAQCQMBYIBEFAWDANBYHRAEISCMKBKFQXDAMRUGY4DUPB6N5H";
const PRE_AUTH: &[u8] = b"TAAACAQDAQCQMBYIBEFAWDANBYHRAEISCMKBKFQXDAMRUGY4DUPB6ZSR";

fn account_key() -> [u8; 32] {
    let mut key = [0u8; 32];
    for (i, byte) in key.iter_mut().enumerate() {
        *byte = i as u8;
    }
    key
}

#[test]
fn native_payment_scenario() {
    let operation =
        Operation::new_payment(None::<MuxedAccount>, ACCOUNT, Asset::native(), &b"10.5000000"[..])
            .unwrap();
    let bytes = encode(&operation);
    let decoded = <Operation>::from_xdr(&bytes).unwrap();
    assert_eq!(decoded, operation);
    match decoded.body {
        OperationBody::Payment(PaymentOp { destination, asset, amount }) => {
            assert_eq!(amount, 105_000_000);
            assert_eq!(asset, Asset::AssetTypeNative);
            assert_eq!(destination, MuxedAccount::KeyTypeEd25519(account_key()));
        },
        other => panic!("unexpected {:?}", other),
    }
    assert_eq!(decoded.source_account, None);
}

#[test]
fn payment_checks_source_then_destination_then_amount() {
    assert!(matches!(
        Operation::new_payment(Some(PRE_AUTH), &b"bad"[..], Asset::native(), &b"x"[..]),
        Err(StellarSdkError::InvalidStellarKeyEncodingVersion { .. })
    ));
    assert_eq!(
        Operation::new_payment(Some(ACCOUNT), &b"bad"[..], Asset::native(), &b"x"[..]),
        Err(StellarSdkError::InvalidBase32Character { at_position: 0 })
    );
    assert_eq!(
        Operation::new_payment(Some(ACCOUNT), ACCOUNT, Asset::native(), &b"x"[..]),
        Err(StellarSdkError::InvalidAmountString)
    );
    assert_eq!(
        Operation::new_payment(Some(ACCOUNT), ACCOUNT, Asset::native(), &b"0"[..]),
        Err(StellarSdkError::AmountNonPositive)
    );
    assert_eq!(
        Operation::new_payment(Some(ACCOUNT), ACCOUNT, Asset::native(), StroopAmount(-1)),
        Err(StellarSdkError::AmountNonPositive)
    );
    let operation =
        Operation::new_payment(Some(ACCOUNT), ACCOUNT, Asset::native(), StroopAmount(1)).unwrap();
    assert_eq!(operation.source_account, Some(MuxedAccount::KeyTypeEd25519(account_key())));
}

#[test]
fn end_sponsoring_future_reserves_has_no_fields() {
    assert_eq!(
        Operation::new_end_sponsoring_future_reserves(None::<MuxedAccount>),
        Ok(Operation { source_account: None, body: OperationBody::EndSponsoringFutureReserves })
    );
    assert_eq!(
        Operation::new_end_sponsoring_future_reserves(Some(ACCOUNT)),
        Ok(Operation {
            source_account: Some(MuxedAccount::KeyTypeEd25519(account_key())),
            body: OperationBody::EndSponsoringFutureReserves
        })
    );
    assert!(matches!(
        Operation::new_end_sponsoring_future_reserves(Some(PRE_AUTH)),
        Err(StellarSdkError::InvalidStellarKeyEncodingVersion { .. })
    ));
}

#[test]
fn manage_data_bounds_name_and_value() {
    let set = Operation::new_manage_data(None::<MuxedAccount>, b"name", Some(&b"value"[..]));
    assert_eq!(
        set,
        Ok(Operation {
            source_account: None,
            body: OperationBody::ManageData(ManageDataOp {
                data_name: LimitedString::new(b"name").unwrap(),
                data_value: Some(LimitedString::new(b"value").unwrap()),
            })
        })
    );
    let delete = Operation::new_manage_data(Some(ACCOUNT), b"name", None::<&[u8]>).unwrap();
    match delete.body {
        OperationBody::ManageData(ManageDataOp { data_value, .. }) => assert_eq!(data_value, None),
        other => panic!("unexpected {:?}", other),
    }
    assert!(Operation::new_manage_data(None::<MuxedAccount>, &[b'n'; 64], Some(&[1u8; 64][..]))
        .is_ok());
    assert_eq!(
        Operation::new_manage_data(None::<MuxedAccount>, &[b'n'; 65], None::<&[u8]>),
        Err(StellarSdkError::ExceedsMaximumLength { requested_length: 65, allowed_length: 64 })
    );
    // The value is looked at before the name.
    assert_eq!(
        Operation::new_manage_data(None::<MuxedAccount>, &[b'n'; 65], Some(&[1u8; 66][..])),
        Err(StellarSdkError::ExceedsMaximumLength { requested_length: 66, allowed_length: 64 })
    );
    let held = LimitedString::<64>::new(b"held").unwrap();
    assert_eq!(held.as_data_value(), Ok(held));
}

#[test]
fn set_options_takes_every_field_as_given() {
    let signer = Signer { key: SignerKey::SignerKeyTypeEd25519(account_key()), weight: 1 };
    let operation = Operation::new_set_options(
        Some(ACCOUNT),
        Some(1),
        Some(1),
        Some(0),
        Some(200),
        Some(100),
        Some(1),
        Some(&b"example.org"[..]),
        Some(signer),
    );
    assert_eq!(
        operation,
        Ok(Operation {
            source_account: None,
            body: OperationBody::SetOptions(SetOptionsOp {
                inflation_dest: Some(PublicKey::PublicKeyTypeEd25519(account_key())),
                clear_flags: Some(1),
                set_flags: Some(1),
                master_weight: Some(0),
                low_threshold: Some(200),
                med_threshold: Some(100),
                high_threshold: Some(1),
                home_domain: Some(LimitedString::new(b"example.org").unwrap()),
                signer: Some(signer),
            })
        })
    );
    let nothing = Operation::new_set_options(
        None::<PublicKey>,
        None,
        None,
        None,
        None,
        None,
        None,
        None,
        None,
    )
    .unwrap();
    assert_eq!(encode(&nothing).len(), 4 + 4 + 9 * 4);
}

#[test]
fn set_options_checks_home_domain_then_inflation_destination() {
    let too_long = [b'd'; 33];
    assert_eq!(
        Operation::new_set_options(
            Some(&b"bad"[..]),
            None,
            None,
            None,
            None,
            None,
            None,
            Some(&too_long[..]),
            None
        ),
        Err(StellarSdkError::ExceedsMaximumLength { requested_length: 33, allowed_length: 32 })
    );
    assert_eq!(
        Operation::new_set_options(
            Some(&b"bad"[..]),
            None,
            None,
            None,
            None,
            None,
            None,
            Some(&too_long[..32]),
            None
        ),
        Err(StellarSdkError::InvalidBase32Character { at_position: 0 })
    );
}

#[test]
fn create_account_allows_a_zero_balance() {
    assert_eq!(
        Operation::new_create_account(None::<MuxedAccount>, ACCOUNT, &b"0"[..]),
        Ok(Operation {
            source_account: None,
            body: OperationBody::CreateAccount(CreateAccountOp {
                destination: PublicKey::PublicKeyTypeEd25519(account_key()),
                starting_balance: 0
            })
        })
    );
    assert_eq!(
        Operation::new_create_account(None::<MuxedAccount>, ACCOUNT, StroopAmount(-1)),
        Err(StellarSdkError::AmountNegative)
    );
}

#[test]
fn bump_sequence_and_change_trust() {
    assert_eq!(
        Operation::new_bump_sequence(None::<MuxedAccount>, 17),
        Ok(Operation {
            source_account: None,
            body: OperationBody::BumpSequence(BumpSequenceOp { bump_to: 17 })
        })
    );
    assert_eq!(
        Operation::new_change_trust(None::<MuxedAccount>, Asset::native(), None),
        Ok(Operation {
            source_account: None,
            body: OperationBody::ChangeTrust(ChangeTrustOp {
                line: Asset::AssetTypeNative,
                limit: i64::MAX
            })
        })
    );
    assert!(Operation::new_change_trust(None::<MuxedAccount>, Asset::native(), Some(0)).is_ok());
    assert_eq!(
        Operation::new_change_trust(None::<MuxedAccount>, Asset::native(), Some(-1)),
        Err(StellarSdkError::InvalidTrustLineLimit)
    );
}

#[test]
fn manage_sell_offer_checks_amount_and_price() {
    let price = Price { n: 1, d: 3 };
    assert_eq!(
        Operation::new_manage_sell_offer(
            None::<MuxedAccount>,
            Asset::native(),
            Asset::native(),
            &b"2"[..],
            price,
            None
        ),
        Ok(Operation {
            source_account: None,
            body: OperationBody::ManageSellOffer(ManageSellOfferOp {
                selling: Asset::AssetTypeNative,
                buying: Asset::AssetTypeNative,
                amount: 20_000_000,
                price,
                offer_id: 0
            })
        })
    );
    assert_eq!(
        Operation::new_manage_sell_offer(
            None::<MuxedAccount>,
            Asset::native(),
            Asset::native(),
            StroopAmount(0),
            Price { n: 1, d: 0 },
            Some(5)
        ),
        Err(StellarSdkError::InvalidPrice)
    );
    assert_eq!(
        Operation::new_manage_sell_offer(
            None::<MuxedAccount>,
            Asset::native(),
            Asset::native(),
            StroopAmount(-1),
            Price { n: 1, d: 0 },
            Some(5)
        ),
        Err(StellarSdkError::AmountNegative)
    );
}

#[test]
fn claimable_balance_id_from_binary_and_hex() {
    let id = ClaimableBalanceId::ClaimableBalanceIdTypeV0([0xab; 32]);
    let binary = encode(&id);
    assert_eq!(binary.len(), 36);
    assert_eq!(id.into_claimable_balance_id(), Ok(id));
    assert_eq!(AsBinary::Binary(binary.clone()).into_claimable_balance_id(), Ok(id));
    let hex: Vec<u8> = binary.iter().flat_map(|b| format!("{:02X}", b).into_bytes()).collect();
    assert_eq!(AsBinary::Hex(hex.clone()).into_claimable_balance_id(), Ok(id));
    let lower: Vec<u8> = hex.iter().map(|c| c.to_ascii_lowercase()).collect();
    assert_eq!(AsBinary::Hex(lower).into_claimable_balance_id(), Ok(id));
    assert_eq!(
        AsBinary::Binary(binary[..35].to_vec()).into_claimable_balance_id(),
        Err(StellarSdkError::InvalidBinaryLength { found_length: 35, expected_length: 36 })
    );
    let mut wrong_tag = binary.clone();
    wrong_tag[3] = 1;
    assert_eq!(
        AsBinary::Binary(wrong_tag).into_claimable_balance_id(),
        Err(StellarSdkError::InvalidBalanceId)
    );
    assert!(matches!(
        AsBinary::Hex(b"zz".to_vec()).into_claimable_balance_id(),
        Err(StellarSdkError::InvalidHexEncoding(_))
    ));
    assert!(matches!(
        AsBinary::Hex(b"abc".to_vec()).into_claimable_balance_id(),
        Err(StellarSdkError::InvalidHexEncoding(_))
    ));
    assert_eq!(
        Operation::new_claim_claimable_balance(None::<MuxedAccount>, AsBinary::Binary(binary)),
        Ok(Operation {
            source_account: None,
            body: OperationBody::ClaimClaimableBalance(ClaimClaimableBalanceOp { balance_id: id })
        })
    );
}

#[test]
fn hexadecimal_text_is_turned_into_bytes() {
    assert_eq!(AsBinary::Hex(b"00ff10Ab".to_vec()).as_binary::<4>(), Ok([0x00, 0xff, 0x10, 0xab]));
    assert_eq!(AsBinary::Binary(vec![1, 2]).as_binary::<2>(), Ok([1, 2]));
    assert_eq!(
        AsBinary::Hex(b"00ff".to_vec()).as_binary::<4>(),
        Err(StellarSdkError::InvalidBinaryLength { found_length: 2, expected_length: 4 })
    );
}

#[test]
fn allow_trust_checks_code_and_authorization() {
    let trustor = PublicKey::PublicKeyTypeEd25519(account_key());
    assert_eq!(
        Operation::new_allow_trust(None::<MuxedAccount>, ACCOUNT, b"USD", 1),
        Ok(Operation {
            source_account: None,
            body: OperationBody::AllowTrust(AllowTrustOp {
                trustor,
                asset: AssetCode::AssetTypeCreditAlphanum4(*b"USD\0"),
                authorize: 1
            })
        })
    );
    let long = Operation::new_allow_trust(None::<MuxedAccount>, trustor, b"USDCOIN", 2).unwrap();
    match long.body {
        OperationBody::AllowTrust(inner) => {
            assert_eq!(inner.asset, AssetCode::AssetTypeCreditAlphanum12(*b"USDCOIN\0\0\0\0\0"));
        },
        other => panic!("unexpected {:?}", other),
    }
    assert_eq!(encode(&long)[7], 7);
    assert_eq!(<Operation>::from_xdr(&encode(&long)), Ok(long));
    assert_eq!(
        Operation::new_allow_trust(None::<MuxedAccount>, trustor, b"USD", 3),
        Err(StellarSdkError::InvalidAuthorizeFlag)
    );
    assert_eq!(
        Operation::new_allow_trust(None::<MuxedAccount>, trustor, b"", 3),
        Err(StellarSdkError::AssetCodeEmpty)
    );
    assert_eq!(
        Operation::new_allow_trust(None::<MuxedAccount>, trustor, b"ABCDEFGHIJKLM", 0),
        Err(StellarSdkError::AssetCodeTooLong)
    );
}

#[test]
fn decoded_operations_can_be_checked() {
    let issuer = PublicKey::PublicKeyTypeEd25519(account_key());
    let good =
        Operation::new_payment(None::<MuxedAccount>, ACCOUNT, Asset::native(), StroopAmount(1))
            .unwrap();
    assert_eq!(check_operation(&good), Ok(()));
    let payment = |asset: Asset, amount: i64| Operation {
        source_account: None,
        body: OperationBody::Payment(PaymentOp {
            destination: MuxedAccount::KeyTypeEd25519(account_key()),
            asset,
            amount,
        }),
    };
    assert_eq!(
        check_operation(&payment(Asset::AssetTypeNative, 0)),
        Err(StellarSdkError::AmountNonPositive)
    );
    let coded = |code: [u8; 4]| {
        Asset::AssetTypeCreditAlphanum4(AssetAlphaNum4 { asset_code: code, issuer })
    };
    assert_eq!(check_asset(&coded(*b"USD\0")), Ok(()));
    assert_eq!(check_asset(&coded(*b"USDT")), Ok(()));
    assert_eq!(check_asset(&coded(*b"\0\0\0\0")), Err(StellarSdkError::AssetCodeEmpty));
    assert_eq!(check_asset(&coded(*b"\0USD")), Err(StellarSdkError::AssetCodeEmpty));
    assert_eq!(check_asset(&coded(*b"U\0SD")), Err(StellarSdkError::InvalidAssetCodeCharacter));
    assert_eq!(check_asset(&coded(*b"U$D\0")), Err(StellarSdkError::InvalidAssetCodeCharacter));
    assert_eq!(
        check_operation(&payment(coded(*b"U$D\0"), 0)),
        Err(StellarSdkError::InvalidAssetCodeCharacter)
    );
    // What decodes need not be valid: the grammar knows no signs.
    let decoded = <Operation>::from_xdr(&encode(&payment(Asset::AssetTypeNative, -5))).unwrap();
    assert_eq!(check_operation(&decoded), Err(StellarSdkError::AmountNonPositive));
    let options = |weight: u32, signer: Option<Signer>| Operation {
        source_account: None,
        body: OperationBody::SetOptions(SetOptionsOp {
            inflation_dest: None,
            clear_flags: None,
            set_flags: None,
            master_weight: Some(weight),
            low_threshold: None,
            med_threshold: None,
            high_threshold: None,
            home_domain: None,
            signer,
        }),
    };
    let key = SignerKey::SignerKeyTypeEd25519(account_key());
    assert_eq!(check_operation(&options(255, Some(Signer { key, weight: 255 }))), Ok(()));
    assert_eq!(check_operation(&options(256, None)), Err(StellarSdkError::InvalidSignerWeight));
    assert_eq!(
        check_operation(&options(1, Some(Signer { key, weight: 256 }))),
        Err(StellarSdkError::InvalidSignerWeight)
    );
    let offer = |amount: i64, price: Price| Operation {
        source_account: None,
        body: OperationBody::ManageSellOffer(ManageSellOfferOp {
            selling: Asset::AssetTypeNative,
            buying: Asset::AssetTypeNative,
            amount,
            price,
            offer_id: 0,
        }),
    };
    assert_eq!(check_operation(&offer(0, Price { n: 1, d: 1 })), Ok(()));
    assert_eq!(
        check_operation(&offer(-1, Price { n: 0, d: 1 })),
        Err(StellarSdkError::AmountNegative)
    );
    assert_eq!(
        check_operation(&offer(1, Price { n: 0, d: 1 })),
        Err(StellarSdkError::InvalidPrice)
    );
    let trust = Operation {
        source_account: None,
        body: OperationBody::ChangeTrust(ChangeTrustOp { line: Asset::AssetTypeNative, limit: -1 }),
    };
    assert_eq!(check_operation(&trust), Err(StellarSdkError::InvalidTrustLineLimit));
    let create = Operation {
        source_account: None,
        body: OperationBody::CreateAccount(CreateAccountOp {
            destination: issuer,
            starting_balance: -1,
        }),
    };
    assert_eq!(check_operation(&create), Err(StellarSdkError::AmountNegative));
}

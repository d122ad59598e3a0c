use substrate_stellar_sdk::error::{StellarSdkError, XdrError};
use substrate_stellar_sdk::xdr::codec::{decode, encode, XdrCodec};
use substrate_stellar_sdk::xdr::opaque::LimitedString;
use substrate_stellar_sdk::xdr::operation::{
    BumpSequenceOp, ChangeTrustOp, ClaimClaimableBalanceOp, CreateAccountOp, ManageDataOp,
    ManageSellOfferOp, Operation, OperationBody, PaymentOp, SetOptionsOp,
};
use substrate_stellar_sdk::xdr::types::{
    Asset, AssetAlphaNum12, AssetAlphaNum4, ClaimableBalanceId, DecoratedSignature, Memo,
    MuxedAccount, MuxedAccountMed25519, Price, PublicKey, Signer, SignerKey, TimeBounds,
    TransactionExt,
};

fn key(seed: u8) -> [u8; 32] {
    let mut key = [0u8; 32];
    for (i, byte) in key.iter_mut().enumerate() {
        *byte = seed.wrapping_add(i as u8);
    }
    key
}

fn round_trip<T: XdrCodec + PartialEq + core::fmt::Debug + Clone>(value: T) {
    let bytes = encode(&value);
    assert_eq!(bytes.len() % 4, 0);
    assert_eq!(<T>::from_xdr(&bytes), Ok(value.clone()));
    assert_eq!(decode::<T>(&bytes), Ok((value.clone(), bytes.len())));
    let mut longer = bytes.clone();
    longer.extend_from_slice(&[1, 2, 3, 4]);
    assert_eq!(decode::<T>(&longer), Ok((value, bytes.len())));
    assert_eq!(
        <T>::from_xdr(&longer),
        Err(XdrError::TypeEndsTooEarly { remaining_no_of_bytes: 4 })
    );
    for cut in 0..bytes.len() {
        assert!(matches!(<T>::from_xdr(&bytes[..cut]), Err(XdrError::SuddenEnd { .. })));
    }
}

#[test]
fn integers_are_big_endian() {
    assert_eq!(encode(&0x01020304u32), vec![1, 2, 3, 4]);
    assert_eq!(encode(&1i32), vec![0, 0, 0, 1]);
    assert_eq!(encode(&-1i32), vec![255, 255, 255, 255]);
    assert_eq!(encode(&i32::MIN), vec![128, 0, 0, 0]);
    assert_eq!(encode(&0x0102030405060708u64), vec![1, 2, 3, 4, 5, 6, 7, 8]);
    assert_eq!(encode(&-2i64), vec![255, 255, 255, 255, 255, 255, 255, 254]);
    assert_eq!(encode(&i64::MIN), vec![128, 0, 0, 0, 0, 0, 0, 0]);
    assert_eq!(encode(&105_000_000i64), vec![0, 0, 0, 0, 0x06, 0x42, 0x2c, 0x40]);
    for value in [0u32, 1, 255, 256, 0x7fff_ffff, 0x8000_0000, u32::MAX] {
        round_trip(value);
    }
    for value in [0i32, 1, -1, i32::MAX, i32::MIN] {
        round_trip(value);
    }
    for value in [0u64, 1, 0xffff_ffff, 0x1_0000_0000, u64::MAX] {
        round_trip(value);
    }
    for value in [0i64, 1, -1, i64::MAX, i64::MIN, 105_000_000] {
        round_trip(value);
    }
}

#[test]
fn truncated_integer_is_a_sudden_end() {
    assert_eq!(
        <u32>::from_xdr(&[1, 2, 3]),
        Err(XdrError::SuddenEnd { at_position: 0, expected_length: 4 })
    );
    assert_eq!(
        <i64>::from_xdr(&[1, 2, 3, 4, 5]),
        Err(XdrError::SuddenEnd { at_position: 0, expected_length: 8 })
    );
    assert_eq!(
        <(u32, u64)>::from_xdr(&[0, 0, 0, 1, 9, 9]),
        Err(XdrError::SuddenEnd { at_position: 4, expected_length: 8 })
    );
}

#[test]
fn fixed_opaque_is_written_as_it_is() {
    assert_eq!(encode(&[1u8, 2, 3, 4]), vec![1, 2, 3, 4]);
    assert_eq!(encode(&[1u8, 2, 3, 4, 5]), vec![1, 2, 3, 4, 5, 0, 0, 0]);
    round_trip([7u8; 32]);
    round_trip([1u8, 2, 3]);
    assert_eq!(
        <[u8; 5]>::from_xdr(&[1, 2, 3, 4, 5, 0, 1, 0]),
        Err(XdrError::NonZeroPadding { at_position: 6 })
    );
}

#[test]
fn bounded_string_has_length_and_padding() {
    let text = LimitedString::<28>::new(b"hello").unwrap();
    assert_eq!(text.len(), 5);
    assert_eq!(text.to_vec(), b"hello".to_vec());
    assert_eq!(encode(&text), vec![0, 0, 0, 5, b'h', b'e', b'l', b'l', b'o', 0, 0, 0]);
    round_trip(text);
    round_trip(LimitedString::<28>::new(b"").unwrap());
    round_trip(LimitedString::<28>::new(&[b'x'; 28]).unwrap());
    round_trip(LimitedString::<64>::new(&[0u8; 63]).unwrap());
    assert_eq!(
        LimitedString::<28>::new(&[b'x'; 29]),
        Err(StellarSdkError::ExceedsMaximumLength { requested_length: 29, allowed_length: 28 })
    );
}

#[test]
fn bounded_string_decoding_is_strict() {
    assert_eq!(
        <LimitedString<4>>::from_xdr(&[0, 0, 0, 5, 1, 2, 3, 4, 5, 0, 0, 0]),
        Err(XdrError::ExceedsMaxLength { at_position: 0, max_length: 4, actual_length: 5 })
    );
    assert_eq!(
        <LimitedString<8>>::from_xdr(&[0, 0, 0, 5, 1, 2, 3, 4, 5, 0, 0, 9]),
        Err(XdrError::NonZeroPadding { at_position: 11 })
    );
    assert_eq!(
        <LimitedString<8>>::from_xdr(&[0, 0, 0, 5, 1, 2, 3, 4, 5, 7, 0, 0]),
        Err(XdrError::NonZeroPadding { at_position: 9 })
    );
    assert_eq!(
        <LimitedString<8>>::from_xdr(&[0, 0, 0, 5, 1, 2, 3, 4, 5, 0, 0]),
        Err(XdrError::SuddenEnd { at_position: 4, expected_length: 5 })
    );
    assert_eq!(
        <LimitedString<8>>::from_xdr(&[0xff, 0xff, 0xff, 0xff]),
        Err(XdrError::ExceedsMaxLength {
            at_position: 0,
            max_length: 8,
            actual_length: 0xffff_ffff
        })
    );
}

#[test]
fn optional_value_has_a_flag() {
    assert_eq!(encode(&None::<u32>), vec![0, 0, 0, 0]);
    assert_eq!(encode(&Some(7u32)), vec![0, 0, 0, 1, 0, 0, 0, 7]);
    round_trip(None::<u64>);
    round_trip(Some(9u64));
    assert_eq!(
        <Option<u32>>::from_xdr(&[0, 0, 0, 2, 0, 0, 0, 7]),
        Err(XdrError::InvalidOptional { at_position: 0, has_code: 2 })
    );
}

#[test]
fn union_has_a_tag() {
    let plain = MuxedAccount::KeyTypeEd25519(key(1));
    let mut expected = vec![0, 0, 0, 0];
    expected.extend_from_slice(&key(1));
    assert_eq!(encode(&plain), expected);
    let muxed = MuxedAccount::KeyTypeMuxedEd25519(MuxedAccountMed25519 { id: 5, ed25519: key(2) });
    let mut expected = vec![0, 0, 1, 0, 0, 0, 0, 0, 0, 0, 0, 5];
    expected.extend_from_slice(&key(2));
    assert_eq!(encode(&muxed), expected);
    assert_eq!(
        <MuxedAccount>::from_xdr(&[0, 0, 0, 9]),
        Err(XdrError::InvalidDiscriminator { at_position: 0, found: 9 })
    );
    assert_eq!(
        <Asset>::from_xdr(&[0, 0, 0, 3]),
        Err(XdrError::InvalidDiscriminator { at_position: 0, found: 3 })
    );
    assert_eq!(encode(&Asset::AssetTypeNative), vec![0, 0, 0, 0]);
    assert_eq!(encode(&TransactionExt::V0), vec![0, 0, 0, 0]);
}

#[test]
fn value_types_round_trip() {
    let issuer = PublicKey::PublicKeyTypeEd25519(key(3));
    round_trip(issuer);
    round_trip(MuxedAccount::KeyTypeEd25519(key(4)));
    round_trip(MuxedAccount::KeyTypeMuxedEd25519(MuxedAccountMed25519 {
        id: u64::MAX,
        ed25519: key(5),
    }));
    round_trip(SignerKey::SignerKeyTypeEd25519(key(6)));
    round_trip(SignerKey::SignerKeyTypePreAuthTx(key(7)));
    round_trip(SignerKey::SignerKeyTypeHashX(key(8)));
    round_trip(Signer { key: SignerKey::SignerKeyTypeHashX(key(9)), weight: 255 });
    round_trip(Asset::AssetTypeNative);
    round_trip(Asset::AssetTypeCreditAlphanum4(AssetAlphaNum4 { asset_code: *b"USD\0", issuer }));
    round_trip(Asset::AssetTypeCreditAlphanum12(AssetAlphaNum12 {
        asset_code: *b"LONGCODE\0\0\0\0",
        issuer,
    }));
    round_trip(Price { n: 1, d: 3 });
    round_trip(Price { n: i32::MAX, d: i32::MIN });
    round_trip(TimeBounds { min_time: 0, max_time: u64::MAX });
    round_trip(Memo::MemoNone);
    round_trip(Memo::MemoText(LimitedString::new(b"thanks").unwrap()));
    round_trip(Memo::MemoId(77));
    round_trip(Memo::MemoHash(key(10)));
    round_trip(Memo::MemoReturn(key(11)));
    round_trip(DecoratedSignature {
        hint: [1, 2, 3, 4],
        signature: LimitedString::new(&[5u8; 64]).unwrap(),
    });
    round_trip(ClaimableBalanceId::ClaimableBalanceIdTypeV0(key(12)));
    round_trip(TransactionExt::V0);
}

fn sample_operations() -> Vec<Operation> {
    let issuer = PublicKey::PublicKeyTypeEd25519(key(20));
    let asset = Asset::AssetTypeCreditAlphanum4(AssetAlphaNum4 { asset_code: *b"EUR\0", issuer });
    let bodies = vec![
        OperationBody::CreateAccount(CreateAccountOp { destination: issuer, starting_balance: 1 }),
        OperationBody::Payment(PaymentOp {
            destination: MuxedAccount::KeyTypeEd25519(key(21)),
            asset,
            amount: 105_000_000,
        }),
        OperationBody::ManageSellOffer(ManageSellOfferOp {
            selling: Asset::AssetTypeNative,
            buying: asset,
            amount: 5,
            price: Price { n: 2, d: 7 },
            offer_id: 0,
        }),
        OperationBody::SetOptions(SetOptionsOp {
            inflation_dest: Some(issuer),
            clear_flags: None,
            set_flags: Some(3),
            master_weight: Some(255),
            low_threshold: None,
            med_threshold: Some(2),
            high_threshold: Some(1),
            home_domain: Some(LimitedString::new(b"example.org").unwrap()),
            signer: Some(Signer { key: SignerKey::SignerKeyTypeEd25519(key(22)), weight: 4 }),
        }),
        OperationBody::SetOptions(SetOptionsOp {
            inflation_dest: None,
            clear_flags: None,
            set_flags: None,
            master_weight: None,
            low_threshold: None,
            med_threshold: None,
            high_threshold: None,
            home_domain: None,
            signer: None,
        }),
        OperationBody::ChangeTrust(ChangeTrustOp { line: asset, limit: i64::MAX }),
        OperationBody::ManageData(ManageDataOp {
            data_name: LimitedString::new(b"name").unwrap(),
            data_value: Some(LimitedString::new(&[1, 2, 3]).unwrap()),
        }),
        OperationBody::ManageData(ManageDataOp {
            data_name: LimitedString::new(&[b'n'; 64]).unwrap(),
            data_value: None,
        }),
        OperationBody::BumpSequence(BumpSequenceOp { bump_to: 99 }),
        OperationBody::ClaimClaimableBalance(ClaimClaimableBalanceOp {
            balance_id: ClaimableBalanceId::ClaimableBalanceIdTypeV0(key(23)),
        }),
        OperationBody::EndSponsoringFutureReserves,
    ];
    let mut operations = Vec::new();
    for (i, body) in bodies.into_iter().enumerate() {
        let source_account = if i % 2 == 0 {
            None
        } else {
            Some(MuxedAccount::KeyTypeEd25519(key(30 + i as u8)))
        };
        operations.push(Operation { source_account, body });
    }
    operations
}

#[test]
fn operations_round_trip() {
    for operation in sample_operations() {
        round_trip(operation.body);
        round_trip(operation);
    }
}

#[test]
fn operation_tags_follow_the_protocol() {
    let tags: Vec<u8> = sample_operations()
        .iter()
        .map(|operation| encode(&operation.body)[3])
        .collect();
    assert_eq!(tags, vec![0, 1, 3, 5, 5, 6, 10, 10, 11, 15, 17]);
    assert_eq!(
        <OperationBody>::from_xdr(&[0, 0, 0, 7]),
        Err(XdrError::SuddenEnd { at_position: 4, expected_length: 4 })
    );
    assert_eq!(encode(&OperationBody::EndSponsoringFutureReserves), vec![0, 0, 0, 17]);
    assert_eq!(
        <OperationBody>::from_xdr(&[0, 0, 0, 2]),
        Err(XdrError::InvalidDiscriminator { at_position: 0, found: 2 })
    );
}

#[test]
fn payment_operation_bytes() {
    let operation = Operation {
        source_account: None,
        body: OperationBody::Payment(PaymentOp {
            destination: MuxedAccount::KeyTypeEd25519(key(0)),
            asset: Asset::AssetTypeNative,
            amount: 105_000_000,
        }),
    };
    let mut expected = vec![0, 0, 0, 0, 0, 0, 0, 1, 0, 0, 0, 0];
    expected.extend_from_slice(&key(0));
    expected.extend_from_slice(&[0, 0, 0, 0]);
    expected.extend_from_slice(&[0, 0, 0, 0, 0x06, 0x42, 0x2c, 0x40]);
    assert_eq!(encode(&operation), expected);
    assert_eq!(<Operation>::from_xdr(&expected), Ok(operation));
}

#[test]
fn every_changed_byte_changes_the_value_or_fails() {
    for operation in sample_operations() {
        let bytes = encode(&operation);
        for index in 0..bytes.len() {
            let mut changed = bytes.clone();
            changed[index] ^= 0x40;
            match <Operation>::from_xdr(&changed) {
                Ok(other) => {
                    assert_ne!(other, operation);
                    assert_eq!(encode(&other), changed);
                },
                Err(_) => {},
            }
        }
    }
}

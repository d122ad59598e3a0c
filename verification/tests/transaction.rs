use substrate_stellar_sdk::base64_xdr::{from_base64_xdr, to_base64_xdr};
use substrate_stellar_sdk::error::{StellarSdkError, XdrError};
use substrate_stellar_sdk::signatures::{signers_for, verify_signature_weights};
use substrate_stellar_sdk::validity::check_transaction;
use substrate_stellar_sdk::xdr::codec::encode;
use substrate_stellar_sdk::xdr::envelope::TransactionEnvelope;
use substrate_stellar_sdk::xdr::opaque::LimitedString;
use substrate_stellar_sdk::xdr::operation::{Operation, OperationBody};
use substrate_stellar_sdk::xdr::transaction::Transaction;
use substrate_stellar_sdk::xdr::types::{
    DecoratedSignature, Memo, MuxedAccount, PublicKey, Signer, SignerKey, TimeBounds,
    TransactionExt,
};


const ACCOUNT: &[u8] = b"GAAACAQDAQCQMBYIBEFAWDANBYHRAEISCMKBKFQXDAMRUGY4DUPB6N5H";

fn key(seed: u8) -> [u8; 32] {
    let mut key = [0u8; 32];
    for (i, byte) in key.iter_mut().enumerate() {
        *byte = seed.wrapping_add(i as u8);
    }
    key
}

fn operations(count: usize) -> Vec<Operation> {
    (0..count)
        .map(|i| Operation::new_bump_sequence(None::<MuxedAccount>, i as i64).unwrap())
        .collect()
}

fn transaction(count: usize) -> Result<Transaction, StellarSdkError> {
    Transaction::new(
        ACCOUNT,
        100,
        7,
        Some(TimeBounds { min_time: 1, max_time: 2 }),
        Memo::from_text(b"hi").unwrap(),
        operations(count),
    )
}

#[test]
fn transaction_needs_between_1_and_100_operations() {
    assert_eq!(transaction(0), Err(StellarSdkError::MissingOperations));
    assert!(transaction(1).is_ok());
    let full = transaction(100).unwrap();
    assert_eq!(full.operations.len(), 100);
    assert_eq!(full.fee, 100);
    assert_eq!(full.seq_num, 7);
    assert_eq!(full.source_account, MuxedAccount::KeyTypeEd25519(key(0)));
    assert_eq!(
        transaction(101),
        Err(StellarSdkError::ExceedsMaximumLength { requested_length: 101, allowed_length: 100 })
    );
    assert!(matches!(
        Transaction::new(&b"bad"[..], 1, 1, None, Memo::none(), Vec::new()),
        Err(StellarSdkError::InvalidBase32Character { .. })
    ));
}

#[test]
fn envelope_round_trip() {
    for count in [1usize, 2, 100] {
        let mut envelope = transaction(count).unwrap().into_transaction_envelope();
        envelope.add_signature([1, 2, 3, 4], &[9u8; 64]).unwrap();
        let bytes = envelope.to_xdr();
        assert_eq!(&bytes[..4], &[0, 0, 0, 2]);
        assert_eq!(TransactionEnvelope::from_xdr(&bytes), Ok(envelope.clone()));
        let mut longer = bytes.clone();
        longer.push(0);
        assert_eq!(
            TransactionEnvelope::from_xdr(&longer),
            Err(XdrError::TypeEndsTooEarly { remaining_no_of_bytes: 1 })
        );
        assert!(TransactionEnvelope::from_xdr(&bytes[..bytes.len() - 1]).is_err());
        let bumped = envelope.clone().wrap_fee_bump(ACCOUNT, 500).unwrap();
        let bytes = bumped.to_xdr();
        assert_eq!(&bytes[..4], &[0, 0, 0, 5]);
        assert_eq!(TransactionEnvelope::from_xdr(&bytes), Ok(bumped));
    }
}

#[test]
fn envelope_with_too_many_operations_is_not_decoded() {
    let envelope = transaction(1).unwrap().into_transaction_envelope();
    let bytes = envelope.to_xdr();
    // tag, source account, fee, sequence number, time bounds, memo
    let at_count = 4 + 36 + 4 + 8 + 20 + 12;
    assert_eq!(&bytes[at_count..at_count + 4], &[0, 0, 0, 1]);
    let mut changed = bytes.clone();
    changed[at_count + 3] = 101;
    assert_eq!(
        TransactionEnvelope::from_xdr(&changed),
        Err(XdrError::ExceedsMaxLength {
            at_position: at_count,
            max_length: 100,
            actual_length: 101
        })
    );
    assert_eq!(
        TransactionEnvelope::from_xdr(&[0, 0, 0, 3]),
        Err(XdrError::InvalidDiscriminator { at_position: 0, found: 3 })
    );
}

#[test]
fn signature_base_is_network_tag_and_transaction() {
    let network = [0x11u8; 32];
    let tx = transaction(2).unwrap();
    let base = tx.signature_base(&network);
    let envelope = tx.into_transaction_envelope();
    let bytes = envelope.to_xdr();
    let mut expected = network.to_vec();
    // The envelope without its empty list of signatures is tag and transaction.
    expected.extend_from_slice(&bytes[..bytes.len() - 4]);
    assert_eq!(base, expected);
    assert_eq!(envelope.signature_base(&network), expected);
    let bumped = envelope.wrap_fee_bump(ACCOUNT, 500).unwrap();
    let bytes = bumped.to_xdr();
    let mut expected = network.to_vec();
    expected.extend_from_slice(&bytes[..bytes.len() - 4]);
    assert_eq!(bumped.signature_base(&network), expected);
    assert_eq!(&expected[32..36], &[0, 0, 0, 5]);
}

#[test]
fn twentieth_signature_is_accepted_and_the_next_refused() {
    let mut envelope = transaction(1).unwrap().into_transaction_envelope();
    for i in 0..20u8 {
        assert_eq!(envelope.add_signature([i, 0, 0, 0], &[i; 64]), Ok(()));
        assert_eq!(envelope.signature_count(), i as usize + 1);
    }
    let before = envelope.clone();
    assert_eq!(
        envelope.add_signature([20, 0, 0, 0], &[20; 64]),
        Err(StellarSdkError::TooManySignatures)
    );
    assert_eq!(envelope, before);
    assert_eq!(envelope.signatures().len(), 20);
    assert_eq!(envelope.signatures()[19].hint, [19, 0, 0, 0]);
    assert_eq!(envelope.signatures()[19].signature.to_vec(), vec![19u8; 64]);
    assert_eq!(TransactionEnvelope::from_xdr(&envelope.to_xdr()), Ok(envelope));
}

#[test]
fn signature_must_have_64_bytes_and_hints_may_repeat() {
    let mut envelope = transaction(1).unwrap().into_transaction_envelope();
    assert_eq!(
        envelope.add_signature([0; 4], &[1; 63]),
        Err(StellarSdkError::InvalidSignatureLength { found_length: 63, expected_length: 64 })
    );
    assert_eq!(
        envelope.add_signature([0; 4], &[1; 65]),
        Err(StellarSdkError::InvalidSignatureLength { found_length: 65, expected_length: 64 })
    );
    assert_eq!(envelope.signature_count(), 0);
    assert_eq!(envelope.add_signature([7; 4], &[1; 64]), Ok(()));
    assert_eq!(envelope.add_signature([7; 4], &[1; 64]), Ok(()));
    assert_eq!(envelope.signature_count(), 2);
}

#[test]
fn fee_bump_cannot_be_wrapped_again() {
    let envelope = transaction(1).unwrap().into_transaction_envelope();
    let bumped = envelope.clone().wrap_fee_bump(ACCOUNT, 500).unwrap();
    match &bumped {
        TransactionEnvelope::EnvelopeTypeTxFeeBump(outer) => {
            assert_eq!(outer.tx.fee, 500);
            assert_eq!(outer.tx.fee_source, MuxedAccount::KeyTypeEd25519(key(0)));
            assert_eq!(TransactionEnvelope::EnvelopeTypeTx(outer.tx.inner_tx.clone()), envelope);
            assert!(outer.signatures.is_empty());
        },
        other => panic!("unexpected {:?}", other),
    }
    assert_eq!(
        bumped.clone().wrap_fee_bump(ACCOUNT, 900),
        Err(StellarSdkError::CantWrapFeeBumpTransaction)
    );
    // Refused before the fee source is looked at.
    assert_eq!(
        bumped.wrap_fee_bump(&b"bad"[..], 900),
        Err(StellarSdkError::CantWrapFeeBumpTransaction)
    );
    assert!(matches!(
        envelope.wrap_fee_bump(&b"bad"[..], 900),
        Err(StellarSdkError::InvalidBase32Character { .. })
    ));
}

fn signer(seed: u8, weight: u32) -> Signer {
    Signer { key: SignerKey::SignerKeyTypeEd25519(key(seed)), weight }
}

fn signature_of(seed: u8) -> DecoratedSignature {
    DecoratedSignature {
        hint: PublicKey::from_binary(key(seed)).signature_hint(),
        signature: LimitedString::new(&[seed; 64]).unwrap(),
    }
}

#[test]
fn weights_one_two_three_against_threshold_four() {
    let signers = vec![signer(10, 1), signer(20, 2), signer(30, 3)];
    let two = vec![signature_of(10), signature_of(20)];
    let verified = vec![vec![true, false, false], vec![false, true, false]];
    let report = verify_signature_weights(&two, &signers, &verified, 4);
    assert_eq!(report.weight, 3);
    assert!(!report.threshold_met);
    assert_eq!(report.attributions, vec![Some(0), Some(1)]);
    assert!(report.unknown.is_empty());
    assert_eq!(report.check_known(), Ok(()));
    let three = vec![signature_of(10), signature_of(20), signature_of(30)];
    let verified = vec![
        vec![true, false, false],
        vec![false, true, false],
        vec![false, false, true],
    ];
    let report = verify_signature_weights(&three, &signers, &verified, 4);
    assert_eq!(report.weight, 6);
    assert!(report.threshold_met);
    assert_eq!(report.attributions, vec![Some(0), Some(1), Some(2)]);
}

#[test]
fn envelope_weights_follow_its_signatures() {
    let signers = vec![signer(10, 1), signer(20, 2), signer(30, 3)];
    let mut envelope = transaction(1).unwrap().into_transaction_envelope();
    envelope.add_signature(signature_of(10).hint, &[10; 64]).unwrap();
    envelope.add_signature(signature_of(20).hint, &[20; 64]).unwrap();
    let all = vec![vec![true; 3]; 3];
    assert!(!envelope.verify_weights(&signers, &all, 4).threshold_met);
    assert!(envelope.verify_weights(&signers, &all, 3).threshold_met);
    envelope.add_signature(signature_of(30).hint, &[30; 64]).unwrap();
    let report = envelope.verify_weights(&signers, &all, 4);
    assert_eq!(report.weight, 6);
    assert!(report.threshold_met);
}

#[test]
fn unknown_signer_is_reported_and_the_rest_still_counts() {
    let signers = vec![signer(10, 1), signer(20, 2)];
    let signatures = vec![signature_of(99), signature_of(20), signature_of(98)];
    let verified = vec![vec![true, true], vec![true, true], vec![true, true]];
    let report = verify_signature_weights(&signatures, &signers, &verified, 2);
    assert_eq!(report.weight, 2);
    assert!(report.threshold_met);
    assert_eq!(report.attributions, vec![None, Some(1), None]);
    assert_eq!(report.unknown, vec![signature_of(99).hint, signature_of(98).hint]);
    assert_eq!(
        report.check_known(),
        Err(StellarSdkError::UnknownSignerKey(signature_of(99).hint))
    );
}

#[test]
fn no_signer_counts_twice_and_no_signature_counts_for_two() {
    // Two signers share a hint; the same signature is given twice.
    let mut twin = key(10);
    twin[0] = 0xff;
    let signers = vec![
        signer(10, 5),
        Signer { key: SignerKey::SignerKeyTypeEd25519(twin), weight: 7 },
    ];
    let signatures = vec![signature_of(10), signature_of(10), signature_of(10)];
    assert_eq!(signers_for(&signatures[0], &signers), vec![0, 1]);
    let verified = vec![vec![true, true], vec![true, false], vec![true, true]];
    let report = verify_signature_weights(&signatures, &signers, &verified, 12);
    assert_eq!(report.attributions, vec![Some(0), None, Some(1)]);
    assert_eq!(report.weight, 12);
    assert!(report.threshold_met);
    assert!(report.unknown.is_empty());
    // A signature that does not verify counts for nothing.
    let nothing = vec![vec![false, false], vec![], vec![false]];
    let report = verify_signature_weights(&signatures, &signers, &nothing, 1);
    assert_eq!(report.weight, 0);
    assert!(!report.threshold_met);
    assert_eq!(report.attributions, vec![None, None, None]);
    // Outcomes for pairs whose hints differ are not looked at.
    let other = verify_signature_weights(
        &vec![signature_of(50)],
        &signers,
        &vec![vec![true, true]],
        0,
    );
    assert_eq!(other.weight, 0);
    assert!(other.threshold_met);
    assert_eq!(other.unknown.len(), 1);
}

#[test]
fn base64_text_of_an_envelope() {
    let mut envelope = transaction(1).unwrap().into_transaction_envelope();
    let text = envelope.to_base64_xdr();
    assert!(text.starts_with(b"AAAAAgAAAAAAAQID"));
    assert_eq!(TransactionEnvelope::from_base64_xdr(&text), Ok(envelope.clone()));
    assert_eq!(
        TransactionEnvelope::from_base64_xdr(b"not base64!"),
        Err(XdrError::InvalidBase64)
    );
    assert_eq!(to_base64_xdr(&0x68656c6cu32), b"aGVsbA==".to_vec());
    assert_eq!(from_base64_xdr::<u32>(b"aGVsbA=="), Ok(0x68656c6c));
    assert_eq!(
        from_base64_xdr::<u32>(b"aGVs"),
        Err(XdrError::SuddenEnd { at_position: 0, expected_length: 4 })
    );
    assert_eq!(encode(&OperationBody::EndSponsoringFutureReserves), vec![0, 0, 0, 17]);
    let signature = [3u8; 64];
    let signature_text = to_base64_xdr(&signature);
    assert_eq!(envelope.add_base64_signature([1; 4], &signature_text), Ok(()));
    assert_eq!(envelope.signatures()[0].signature.to_vec(), signature.to_vec());
    assert!(matches!(
        envelope.add_base64_signature([1; 4], b"***"),
        Err(StellarSdkError::InvalidBase64Encoding(_))
    ));
    assert_eq!(
        envelope.add_base64_signature([1; 4], b"aGVsbA=="),
        Err(StellarSdkError::InvalidSignatureLength { found_length: 4, expected_length: 64 })
    );
    assert_eq!(envelope.signature_count(), 1);
}

#[test]
fn signature_that_does_not_verify_is_not_added() {
    let key = PublicKey::from_binary(key(10));
    let mut envelope = transaction(1).unwrap().into_transaction_envelope();
    assert_eq!(
        envelope.add_verified_signature(&key, &[1; 64], false),
        Err(StellarSdkError::PublicKeyCantVerify)
    );
    assert_eq!(envelope.signature_count(), 0);
    assert_eq!(envelope.add_verified_signature(&key, &[1; 64], true), Ok(()));
    assert_eq!(envelope.signatures()[0].hint, key.signature_hint());
    assert_eq!(
        envelope.add_verified_signature(&key, &[1; 10], true),
        Err(StellarSdkError::InvalidSignatureLength { found_length: 10, expected_length: 64 })
    );
}

#[test]
fn decoded_transaction_can_be_checked() {
    let tx = transaction(3).unwrap();
    assert_eq!(check_transaction(&tx), Ok(()));
    let empty = Transaction {
        source_account: MuxedAccount::KeyTypeEd25519(key(0)),
        fee: 1,
        seq_num: 1,
        time_bounds: None,
        memo: Memo::MemoNone,
        operations: Vec::new(),
        ext: TransactionExt::V0,
    };
    assert_eq!(check_transaction(&empty), Err(StellarSdkError::MissingOperations));
    // The grammar allows an empty list, so the envelope decodes; the check objects.
    let bytes = empty.clone().into_transaction_envelope().to_xdr();
    match TransactionEnvelope::from_xdr(&bytes) {
        Ok(TransactionEnvelope::EnvelopeTypeTx(inner)) => {
            assert_eq!(check_transaction(&inner.tx), Err(StellarSdkError::MissingOperations));
        },
        other => panic!("unexpected {:?}", other),
    }
    let mut bad = transaction(3).unwrap();
    bad.operations[1] = Operation {
        source_account: None,
        body: OperationBody::ChangeTrust(substrate_stellar_sdk::xdr::operation::ChangeTrustOp {
            line: substrate_stellar_sdk::xdr::types::Asset::AssetTypeNative,
            limit: -1,
        }),
    };
    assert_eq!(check_transaction(&bad), Err(StellarSdkError::InvalidTrustLineLimit));
}

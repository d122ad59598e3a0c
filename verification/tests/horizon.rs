use substrate_stellar_sdk::horizon::{
    account_path, accounts_segment, check_response, next_sequence_number, request_url, FetchError,
};
use substrate_stellar_sdk::xdr::types::PublicKey;

const ACCOUNT: &[u8] = b"GAAACAQDAQCQMBYIBEFAWDANBYHRAEISCMKBKFQXDAMRUGY4DUPB6N5H";

#[test]
fn request_url_joins_base_and_path() {
    assert_eq!(
        request_url(b"https://horizon.example", &vec![b"/fee_stats".to_vec()]),
        b"https://horizon.example/fee_stats".to_vec()
    );
    assert_eq!(request_url(b"base", &vec![]), b"base".to_vec());
    let path = account_path(ACCOUNT).unwrap();
    assert_eq!(path, vec![b"/accounts/".to_vec(), ACCOUNT.to_vec()]);
    assert_eq!(accounts_segment(), b"/accounts/".to_vec());
    let mut expected = b"http://h/accounts/".to_vec();
    expected.extend_from_slice(ACCOUNT);
    assert_eq!(request_url(b"http://h", &path), expected);
    assert_eq!(account_path(&b"nonsense"[..]), None);
    let mut key = [0u8; 32];
    for (i, byte) in key.iter_mut().enumerate() {
        *byte = i as u8;
    }
    assert_eq!(account_path(PublicKey::from_binary(key)), Some(path));
}

#[test]
fn only_status_200_is_accepted() {
    assert_eq!(check_response(200, b"{}".to_vec()), Ok(b"{}".to_vec()));
    for status in [0u16, 199, 201, 204, 404, 500] {
        assert_eq!(
            check_response(status, b"gone".to_vec()),
            Err(FetchError::UnexpectedResponseStatus { status, body: b"gone".to_vec() })
        );
    }
}

#[test]
fn next_sequence_number_is_one_more() {
    assert_eq!(next_sequence_number(b"0"), Ok(1));
    assert_eq!(next_sequence_number(b"41"), Ok(42));
    assert_eq!(next_sequence_number(b"+41"), Ok(42));
    assert_eq!(next_sequence_number(b"-1"), Ok(0));
    assert_eq!(next_sequence_number(b"-41"), Ok(-40));
    assert_eq!(next_sequence_number(b"0000123"), Ok(124));
    assert_eq!(next_sequence_number(b"9223372036854775806"), Ok(i64::MAX));
    assert_eq!(next_sequence_number(b"-9223372036854775808"), Ok(i64::MIN + 1));
}

#[test]
fn sequence_number_without_successor_is_refused() {
    for text in [
        &b""[..],
        b"+",
        b"-",
        b"12a",
        b"1.5",
        b" 1",
        b"9223372036854775807",
        b"9223372036854775808",
        b"-9223372036854775809",
        b"99999999999999999999999999",
    ] {
        assert_eq!(next_sequence_number(text), Err(FetchError::InvalidSequenceNumber));
    }
}

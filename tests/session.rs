use seance::session::{
    prepare_expire, prepare_expire_at, prepare_set, prepare_set_at, resolve_get, resolve_get_at,
};
use seance::value::{decode_value, encode_value};
use seance::SessionError;

fn json(v: &str) -> Vec<u8> {
    serde_json::to_vec(&v).unwrap()
}

fn expiry_of(bytes: &[u8]) -> Option<u64> {
    decode_value(bytes).unwrap().get_expires_at()
}

#[test]
fn set_then_get_returns_the_value() {
    let written = prepare_set_at(&None, 100, &json("value")).unwrap();
    assert_eq!(expiry_of(&written), None);
    let stored = Some(written);
    for t in [0, 100, 1_000_000, u64::MAX] {
        assert_eq!(resolve_get_at(&stored, t).unwrap(), Some(json("value")));
    }
}

#[test]
fn get_of_nothing_is_absent() {
    assert_eq!(resolve_get_at(&None, 5).unwrap(), None);
    assert_eq!(resolve_get(&None).unwrap(), None);
}

#[test]
fn expired_value_reads_as_absent_but_stays_stored() {
    let stored = Some(prepare_set_at(&None, 100, &json("value")).unwrap());
    let written = prepare_expire_at(&stored, 100, 1).unwrap().unwrap();
    assert_eq!(expiry_of(&written), Some(101));
    let stored = Some(written);
    assert_eq!(resolve_get_at(&stored, 101).unwrap(), Some(json("value")));
    assert_eq!(resolve_get_at(&stored, 102).unwrap(), None);
    assert!(decode_value(stored.as_ref().unwrap()).is_some());
}

#[test]
fn expire_keeps_the_payload() {
    let stored = Some(encode_value(Some(5), &json("kept")));
    let written = prepare_expire_at(&stored, 1000, 60).unwrap().unwrap();
    let value = decode_value(&written).unwrap();
    assert_eq!(value.get_expires_at(), Some(1060));
    assert_eq!(value.into_parsed(), json("kept"));
}

#[test]
fn expire_of_nothing_writes_nothing() {
    assert!(prepare_expire_at(&None, 10, 1).unwrap().is_none());
    assert!(prepare_expire(&None, 1).unwrap().is_none());
}

#[test]
fn live_expiry_is_carried_forward() {
    let stored = Some(prepare_set_at(&None, 1000, &json("1")).unwrap());
    let stored = Some(prepare_expire_at(&stored, 1000, 100).unwrap().unwrap());
    let written = prepare_set_at(&stored, 1050, &json("2")).unwrap();
    assert_eq!(expiry_of(&written), Some(1100));
    assert_eq!(resolve_get_at(&Some(written.clone()), 1100).unwrap(), Some(json("2")));
    assert_eq!(resolve_get_at(&Some(written), 1101).unwrap(), None);
}

#[test]
fn passed_expiry_is_not_carried_forward() {
    let stored = Some(prepare_set_at(&None, 1000, &json("1")).unwrap());
    let stored = Some(prepare_expire_at(&stored, 1000, 100).unwrap().unwrap());
    let written = prepare_set_at(&stored, 1101, &json("2")).unwrap();
    assert_eq!(expiry_of(&written), None);
    assert_eq!(resolve_get_at(&Some(written), u64::MAX).unwrap(), Some(json("2")));
}

#[test]
fn expiry_at_the_same_second_is_still_live() {
    let stored = Some(encode_value(Some(50), &json("1")));
    let written = prepare_set_at(&stored, 50, &json("2")).unwrap();
    assert_eq!(expiry_of(&written), Some(50));
}

#[test]
fn malformed_stored_bytes_are_decode_errors() {
    let stored = Some(b"not an envelope".to_vec());
    assert!(matches!(prepare_set_at(&stored, 1, &json("x")), Err(SessionError::DecodeValue)));
    assert!(matches!(resolve_get_at(&stored, 1), Err(SessionError::DecodeValue)));
    assert!(matches!(prepare_expire_at(&stored, 1, 1), Err(SessionError::DecodeValue)));
    assert!(matches!(resolve_get(&stored), Err(SessionError::DecodeValue)));
    assert!(matches!(prepare_set(&stored, &json("x")), Err(SessionError::DecodeValue)));
    assert!(matches!(prepare_expire(&stored, 1), Err(SessionError::DecodeValue)));
}

#[test]
fn payload_that_is_not_json_is_an_encode_error() {
    assert!(matches!(prepare_set_at(&None, 1, b"{oops"), Err(SessionError::EncodeValue)));
    assert!(matches!(prepare_set(&None, b"{oops"), Err(SessionError::EncodeValue)));
}

#[test]
fn clock_reading_operations_agree_with_timed_ones() {
    let written = prepare_set(&None, &json("value")).unwrap();
    assert_eq!(expiry_of(&written), None);
    let stored = Some(written);
    assert_eq!(resolve_get(&stored).unwrap(), Some(json("value")));
    let expiring = prepare_expire(&stored, 3600).unwrap().unwrap();
    assert!(expiry_of(&expiring).unwrap() > 1_600_000_000);
    let stored = Some(expiring.clone());
    assert_eq!(resolve_get(&stored).unwrap(), Some(json("value")));
    let rewritten = prepare_set(&stored, &json("other")).unwrap();
    assert_eq!(expiry_of(&rewritten), expiry_of(&expiring));
}

#[test]
fn end_to_end_on_one_key() {
    // set, get
    let mut stored = Some(prepare_set_at(&None, 10, &json("value")).unwrap());
    assert_eq!(resolve_get_at(&stored, 10).unwrap(), Some(json("value")));
    // remove, get
    stored = None;
    assert_eq!(resolve_get_at(&stored, 10).unwrap(), None);
    // set, expire by one second, two seconds later get
    stored = Some(prepare_set_at(&stored, 11, &json("value")).unwrap());
    stored = Some(prepare_expire_at(&stored, 11, 1).unwrap().unwrap());
    assert_eq!(resolve_get_at(&stored, 13).unwrap(), None);
}

#[test]
fn empty_payload_is_an_encode_error() {
    assert!(matches!(prepare_set_at(&None, 1, b""), Err(SessionError::EncodeValue)));
}

#[test]
fn value_stored_without_expiry_field_reads_back() {
    let stored = Some(br#"{"value":"x"}"#.to_vec());
    assert_eq!(resolve_get_at(&stored, u64::MAX).unwrap(), Some(json("x")));
    let written = prepare_expire_at(&stored, 7, 3).unwrap().unwrap();
    assert_eq!(String::from_utf8(written).unwrap(), r#"{"expires_at":10,"value":"x"}"#);
    let written = prepare_set_at(&stored, 7, &json("y")).unwrap();
    assert_eq!(String::from_utf8(written).unwrap(), r#"{"expires_at":null,"value":"y"}"#);
}

#[test]
fn expire_on_a_stored_value_always_writes() {
    let stored = Some(encode_value(None, &json("v")));
    let written = prepare_expire(&stored, 10).unwrap();
    assert!(written.is_some());
}

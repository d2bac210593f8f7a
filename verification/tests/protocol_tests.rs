use rpi_control::protocol::{
    decode_reply, get_settings_request, get_state_request, pause, set_request, unpause,
};
use std::collections::BTreeMap;
use std::collections::HashMap;

fn decoded(bytes: &[u8]) -> BTreeMap<String, String> {
    serde_cbor::from_slice(bytes).unwrap()
}

fn text(s: &str) -> Vec<u8> {
    let mut v = vec![0x60 | s.len() as u8];
    v.extend_from_slice(s.as_bytes());
    v
}

#[test]
fn pause_request_bytes() {
    let mut expected = vec![0xa2];
    expected.extend(text("type"));
    expected.extend(text("action"));
    expected.extend(text("value"));
    expected.extend(text("pause"));
    assert_eq!(pause(), expected);
}

#[test]
fn unpause_request_decodes() {
    let m = decoded(&unpause());
    assert_eq!(m.len(), 2);
    assert_eq!(m["type"], "action");
    assert_eq!(m["value"], "unpause");
}

#[test]
fn get_requests_decode() {
    let m = decoded(&get_state_request());
    assert_eq!(m["type"], "get");
    assert_eq!(m["value"], "state");
    let m = decoded(&get_settings_request());
    assert_eq!(m["type"], "get");
    assert_eq!(m["value"], "settings");
}

#[test]
fn set_request_holds_three_entries() {
    let bytes = set_request("my_var", "40");
    assert_eq!(bytes[0], 0xa3);
    let m = decoded(&bytes);
    assert_eq!(m.len(), 3);
    assert_eq!(m["type"], "set");
    assert_eq!(m["var"], "my_var");
    assert_eq!(m["value"], "40");
}

#[test]
fn set_request_with_long_and_unicode_text() {
    let long = "x".repeat(300);
    let bytes = set_request("grüße", &long);
    let m = decoded(&bytes);
    assert_eq!(m["var"], "grüße");
    assert_eq!(m["value"], long);
    let mut encoded_long = vec![0x79, 0x01, 0x2c];
    encoded_long.extend_from_slice(long.as_bytes());
    assert!(bytes.windows(encoded_long.len()).any(|w| w == &encoded_long[..]));
}

#[test]
fn reply_entries_come_in_key_order() {
    let mut map = HashMap::new();
    map.insert("paused".to_string(), "false".to_string());
    map.insert("alpha".to_string(), "1".to_string());
    map.insert("zeta".to_string(), "2".to_string());
    let bytes = serde_cbor::to_vec(&map).unwrap();
    let entries = decode_reply(&bytes).unwrap();
    assert_eq!(
        entries,
        vec![
            ("alpha".to_string(), "1".to_string()),
            ("paused".to_string(), "false".to_string()),
            ("zeta".to_string(), "2".to_string()),
        ]
    );
}

#[test]
fn malformed_reply_is_rejected() {
    assert!(decode_reply(&[0xff, 0x00]).is_none());
    assert!(decode_reply(&[]).is_none());
    let not_a_map = serde_cbor::to_vec(&vec![1u32, 2]).unwrap();
    assert!(decode_reply(&not_a_map).is_none());
}

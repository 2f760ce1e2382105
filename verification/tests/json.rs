use cc_loadout::util::jsonmerge::{merge_object, MergeError};
use cc_loadout::util::retry::again;
use serde_json::Value;

fn object(entries: Vec<(&str, Value)>) -> Value {
    let mut m = serde_json::Map::new();
    for (k, v) in entries {
        m.insert(k.to_string(), v);
    }
    Value::Object(m)
}

type Members = serde_json::Map<String, Value>;

fn set(mut members: Members, key: &str, value: Value) -> Result<Members, String> {
    members.insert(key.to_string(), value);
    Ok(members)
}

fn read(bytes: &[u8]) -> Value {
    serde_json::from_slice(bytes).unwrap()
}

#[test]
fn preserves_other_keys_and_order_when_replacing_one() {
    let text = br#"{"alpha":1,"target":{"old":true},"zeta":2}"#.to_vec();
    let new = object(vec![("new", Value::Bool(true))]);
    let bytes = merge_object(Some(text), |m| set(m, "target", new.clone())).unwrap();
    let parsed = read(&bytes);
    assert_eq!(parsed["target"], object(vec![("new", Value::Bool(true))]));
    assert_eq!(parsed["alpha"], Value::from(1));
    let keys: Vec<&str> = parsed
        .as_object()
        .unwrap()
        .keys()
        .map(String::as_str)
        .collect();
    assert_eq!(keys, vec!["alpha", "target", "zeta"]);
}

#[test]
fn creates_file_when_absent() {
    let bytes = merge_object(None, |m| set(m, "k", Value::from(1))).unwrap();
    assert_eq!(read(&bytes)["k"], Value::from(1));
    assert_eq!(String::from_utf8(bytes).unwrap(), "{\n  \"k\": 1\n}");
}

#[test]
fn rejects_non_object_root() {
    let err = merge_object(Some(b"[1,2,3]".to_vec()), |m| Ok(m)).unwrap_err();
    assert!(err.message("c.json").contains("not a JSON object"));
    assert!(matches!(err, MergeError::NotAnObject));
}

#[test]
fn rejects_what_is_not_json() {
    let err = merge_object(Some(b"{ not json".to_vec()), |m| Ok(m)).unwrap_err();
    assert!(matches!(err, MergeError::Parse(_)));
    assert_eq!(err.message("c.json"), "parsing c.json");
}

#[test]
fn a_refusal_is_handed_on() {
    let err = merge_object(None, |_m| Err("no".to_string())).unwrap_err();
    assert!(matches!(err, MergeError::Refused(_)));
    assert_eq!(err.message("c.json"), "no");
}

#[test]
fn a_busy_program_is_tried_again_for_a_while() {
    assert!(again(0, Some(26)));
    assert!(again(99, Some(26)));
    assert!(!again(100, Some(26)));
    assert!(!again(0, Some(2)));
    assert!(!again(0, None));
}

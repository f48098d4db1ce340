use scut_ai_proxy::json::{
    compact_text, display_text, export, import, parse_json, pretty_text, Json,
};
use serde_json::Value;

const SAMPLE: &str = r#"{"b":[1,-2,2.5,true,null,"x\n"],"a":{"k":"v"},"b2":18446744073709551615}"#;

#[test]
fn carries_values_in_and_out() {
    let value: Value = serde_json::from_str(SAMPLE).unwrap();
    assert_eq!(export(&import(value.clone())), value);
    assert_eq!(export(&parse_json(SAMPLE).unwrap()), value);
    assert_eq!(export(&parse_json(SAMPLE).unwrap().clone()), value);
}

#[test]
fn writes_as_serde_json_does() {
    let value: Value = serde_json::from_str(SAMPLE).unwrap();
    let json = parse_json(SAMPLE).unwrap();
    assert_eq!(compact_text(&json), serde_json::to_string(&value).ok());
    assert_eq!(pretty_text(&json), serde_json::to_string_pretty(&value).ok());
    assert_eq!(display_text(&json), value.to_string());
}

#[test]
fn reports_what_is_no_json() {
    let expected = serde_json::from_str::<Value>("{").unwrap_err().to_string();
    assert_eq!(parse_json("{").unwrap_err(), expected);
}

#[test]
fn follows_a_path() {
    let value: Value = serde_json::from_str(SAMPLE).unwrap();
    let json = parse_json(SAMPLE).unwrap();
    let at = |tokens: &[&str]| json.pointer(tokens).map(export);
    assert_eq!(at(&["b", "5"]), value.pointer("/b/5").cloned());
    assert_eq!(at(&["b", "6"]), None);
    assert_eq!(at(&["b", "05"]), value.pointer("/b/05").cloned());
    assert_eq!(at(&["b", "+1"]), value.pointer("/b/+1").cloned());
    assert_eq!(at(&["a", "k"]), value.pointer("/a/k").cloned());
    assert_eq!(at(&["a", "k", "x"]), None);
    assert_eq!(at(&[]), Some(value));
}

#[test]
fn tells_what_a_value_is() {
    let json = parse_json(SAMPLE).unwrap();
    assert_eq!(json.pointer(&["b", "0"]).and_then(Json::as_i64), Some(1));
    assert_eq!(json.pointer(&["b", "1"]).and_then(Json::as_i64), Some(-2));
    assert_eq!(json.pointer(&["b", "2"]).and_then(Json::as_i64), None);
    assert_eq!(json.get("b2").and_then(Json::as_i64), None);
    match json.get("b2") {
        Some(Json::Number(number)) => assert_eq!(number.as_u64(), Some(u64::MAX)),
        _ => panic!("a number is owed"),
    }
    assert_eq!(json.pointer(&["a", "k"]).and_then(Json::as_str), Some("v"));
    assert_eq!(json.as_str(), None);
    assert!(json.get("c").is_none());
}

#[test]
fn keeps_the_members_in_order() {
    match parse_json(SAMPLE).unwrap() {
        Json::Object(object) => {
            let keys: Vec<&str> = (0..object.len()).map(|i| object.key_at(i).as_str()).collect();
            assert_eq!(keys, ["a", "b", "b2"]);
            assert!(object.value_at(0).get("k").is_some());
            assert!(object.get("b2").is_some());
        }
        _ => panic!("an object is owed"),
    }
}

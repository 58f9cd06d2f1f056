use hubflow::json::JsonValue;
use hubflow::text::{decimal_string, json_string};

#[test]
fn decimal_numerals() {
    assert_eq!(decimal_string(0), "0");
    assert_eq!(decimal_string(7), "7");
    assert_eq!(decimal_string(1013), "1013");
    assert_eq!(decimal_string(u64::MAX), u64::MAX.to_string());
}

#[test]
fn compact_json_text() {
    let v = JsonValue::object(vec![
        ("a".to_string(), JsonValue::array(vec![JsonValue::uint(1), JsonValue::Null, JsonValue::Bool(false)])),
        ("b".to_string(), JsonValue::text("x\"y\\z\n\u{1}")),
        ("c".to_string(), JsonValue::Number(hubflow::json::JsonNumber::NegInt(-12))),
        ("d".to_string(), JsonValue::float("2.5")),
        ("e".to_string(), JsonValue::object(vec![])),
    ]);
    assert_eq!(json_string(&v), "{\"a\":[1,null,false],\"b\":\"x\\\"y\\\\z\\n\\u0001\",\"c\":-12,\"d\":2.5,\"e\":{}}");
}

#[test]
fn json_text_keeps_other_characters_as_they_are() {
    let v = JsonValue::object(vec![
        ("k".to_string(), JsonValue::text("tab\there é")),
        ("n".to_string(), JsonValue::Number(hubflow::json::JsonNumber::NegInt(i64::MIN))),
    ]);
    assert_eq!(json_string(&v), format!("{{\"k\":\"tab\\there é\",\"n\":{}}}", i64::MIN));
}

#[test]
fn json_text_agrees_with_serde_json() {
    let v = JsonValue::object(vec![
        ("a".to_string(), JsonValue::text("q\"\\\u{7}\u{1f}\u{7f}ü")),
        ("b".to_string(), JsonValue::array(vec![JsonValue::Bool(true), JsonValue::uint(u64::MAX)])),
        ("c".to_string(), JsonValue::Null),
    ]);
    let mut m = serde_json::Map::new();
    m.insert("a".to_string(), serde_json::Value::String("q\"\\\u{7}\u{1f}\u{7f}ü".to_string()));
    m.insert(
        "b".to_string(),
        serde_json::Value::Array(vec![serde_json::Value::Bool(true), serde_json::Value::from(u64::MAX)]),
    );
    m.insert("c".to_string(), serde_json::Value::Null);
    let expected = serde_json::to_string(&serde_json::Value::Object(m)).unwrap();
    assert_eq!(json_string(&v), expected);
}

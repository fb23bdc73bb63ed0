use udemy_dl::json::{JsonNumber, JsonValue};

#[test]
fn lookups() {
    let v = JsonValue::Object(vec![
        ("a".to_string(), JsonValue::Bool(true)),
        ("b".to_string(), JsonValue::Number(JsonNumber::PosInt(3))),
        ("c".to_string(), JsonValue::Array(vec![JsonValue::Null])),
        ("d".to_string(), JsonValue::Number(JsonNumber::NonInteger)),
    ]);
    assert!(matches!(v.get("a"), Some(JsonValue::Bool(true))));
    assert!(v.get("z").is_none());
    assert_eq!(v.get("b").unwrap().as_u64(), Some(3));
    assert_eq!(v.get("d").unwrap().as_u64(), None);
    assert_eq!(v.get("c").unwrap().as_array().unwrap().len(), 1);
    assert!(v.get("c").unwrap().as_array().unwrap()[0].is_null());
    assert!(JsonValue::String("x".into()).get("x").is_none());
    assert_eq!(JsonValue::String("x".into()).as_str(), Some("x"));
    assert!(JsonValue::String("chapter".into()).is_str("chapter"));
    assert!(!JsonValue::String("chapter".into()).is_str("lecture"));
}

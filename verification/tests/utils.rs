use udemy_dl::utils::{json_get_string, json_get_u64, sanitize};
use udemy_dl::json::{JsonNumber, JsonValue};
use udemy_dl::error::UdemyError;

#[test]
fn sanitize_normal() {
    let actual = sanitize("the-filename.mp4");

    assert_eq!(actual, "the-filename.mp4");
}

#[test]
fn sanitize_illegal() {
    let actual =
        sanitize(r#"087 Styling & Positioning our Badge with "absolute" and "relative".mp4"#);

    assert_eq!(
        actual,
        "087 Styling _ Positioning our Badge with _absolute_ and _relative_.mp4"
    );
}

#[test]
fn sanitize_leading_period_and_separators() {
    assert_eq!(sanitize(".hidden"), "_hidden");
    assert_eq!(sanitize("a/b\\c"), "a_b_c");
    assert_eq!(sanitize("été"), "_t_");
    assert_eq!(sanitize(""), "");
}

#[test]
fn sanitize_is_idempotent() {
    let once = sanitize("..weird/name?.mp4");
    assert_eq!(once, "_.weird_name_.mp4");
    assert_eq!(sanitize(once.as_str()), once);
}

fn object(entries: Vec<(&str, JsonValue)>) -> JsonValue {
    JsonValue::Object(entries.into_iter().map(|(k, v)| (k.to_string(), v)).collect())
}

#[test]
fn json_get_typed_members() {
    let v = object(vec![
        ("title", JsonValue::String("T".to_string())),
        ("n", JsonValue::Number(JsonNumber::PosInt(7))),
        ("neg", JsonValue::Number(JsonNumber::NegInt(-1))),
    ]);
    assert_eq!(json_get_string(&v, "title").unwrap(), "T");
    assert_eq!(json_get_u64(&v, "n").unwrap(), 7);
    assert!(matches!(json_get_u64(&v, "neg"), Err(UdemyError::Json(k)) if k == "neg"));
    assert!(matches!(json_get_string(&v, "n"), Err(UdemyError::Json(k)) if k == "n"));
    assert!(matches!(json_get_string(&v, "missing"), Err(UdemyError::Json(k)) if k == "missing"));
}

use platz_chart_ext::JsonValue;
use platz_chart_ext::json::json_eq;
use platz_chart_ext::json::json_obj_get;
use platz_chart_ext::render::to_json_text;

fn s(x: &str) -> String {
    x.to_string()
}

fn jstr(x: &str) -> JsonValue {
    JsonValue::Str(s(x))
}

fn jobj(pairs: Vec<(&str, JsonValue)>) -> JsonValue {
    JsonValue::Obj(pairs.into_iter().map(|(k, v)| (s(k), v)).collect())
}

#[test]
fn test_json_text_scalars() {
    assert_eq!(to_json_text(&JsonValue::Null), "null");
    assert_eq!(to_json_text(&JsonValue::Bool(true)), "true");
    assert_eq!(to_json_text(&JsonValue::Bool(false)), "false");
    assert_eq!(to_json_text(&JsonValue::Num(s("3.25"))), "3.25");
    assert_eq!(to_json_text(&jstr("hi")), "\"hi\"");
}

#[test]
fn test_json_text_escapes() {
    assert_eq!(to_json_text(&jstr("a\"b")), "\"a\\\"b\"");
    assert_eq!(to_json_text(&jstr("a\\b")), "\"a\\\\b\"");
    assert_eq!(to_json_text(&jstr("a\nb")), "\"a\\u000ab\"");
    assert_eq!(to_json_text(&jstr("t\u{1f}")), "\"t\\u001f\"");
}

#[test]
fn test_json_text_containers() {
    let v = jobj(vec![
        ("a", JsonValue::Arr(vec![JsonValue::Num(s("1")), JsonValue::Null])),
        ("b", jstr("x")),
    ]);
    assert_eq!(to_json_text(&v), "{\"a\":[1,null],\"b\":\"x\"}");
    // The rendered text parses back to the same document.
    let parsed: serde_json::Value = serde_json::from_str(&to_json_text(&v)).unwrap();
    let expected: serde_json::Value =
        serde_json::from_str("{\"a\": [1, null], \"b\": \"x\"}").unwrap();
    assert_eq!(parsed, expected);
}

#[test]
fn test_json_eq_and_get() {
    let a = jobj(vec![("x", jstr("1")), ("y", JsonValue::Bool(false))]);
    let b = jobj(vec![("x", jstr("1")), ("y", JsonValue::Bool(false))]);
    let c = jobj(vec![("x", jstr("2")), ("y", JsonValue::Bool(false))]);
    assert!(json_eq(&a, &b));
    assert!(!json_eq(&a, &c));
    assert_eq!(json_obj_get(&a, &s("x")), Some(&jstr("1")));
    assert_eq!(json_obj_get(&a, &s("z")), None);
    assert_eq!(json_obj_get(&jstr("not an object"), &s("x")), None);
}

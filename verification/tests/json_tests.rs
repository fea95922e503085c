use agentkernel::http_api::sandbox_state_sha256;
use agentkernel::json::{key_less, push_json_string, write_canonical_json, JsonValue};

fn text(v: &JsonValue) -> String {
    let mut out = String::new();
    write_canonical_json(v, &mut out);
    out
}

fn s(x: &str) -> JsonValue {
    JsonValue::Str(x.to_string())
}

fn obj(entries: Vec<(&str, JsonValue)>) -> JsonValue {
    JsonValue::Object(entries.into_iter().map(|(k, v)| (k.to_string(), v)).collect())
}

#[test]
fn scalars_and_arrays() {
    assert_eq!(text(&JsonValue::Null), "null");
    assert_eq!(text(&JsonValue::Bool(true)), "true");
    assert_eq!(text(&JsonValue::Bool(false)), "false");
    assert_eq!(text(&JsonValue::Number("-1.5e3".to_string())), "-1.5e3");
    assert_eq!(text(&JsonValue::Array(vec![])), "[]");
    assert_eq!(
        text(&JsonValue::Array(vec![JsonValue::Number("1".to_string()), s("a"), JsonValue::Null])),
        "[1,\"a\",null]"
    );
}

#[test]
fn strings_are_escaped_as_serde_json_does() {
    let mut out = String::new();
    push_json_string(&mut out, "a\"b\\c\n\t\r\u{8}\u{c}\u{1}\u{1f}/é\u{7f}");
    assert_eq!(out, "\"a\\\"b\\\\c\\n\\t\\r\\b\\f\\u0001\\u001f/é\u{7f}\"");
    let serde = serde_json::to_string("a\"b\\c\n\t\r\u{8}\u{c}\u{1}\u{1f}/é\u{7f}").unwrap();
    assert_eq!(out, serde);
}

#[test]
fn object_keys_are_sorted() {
    let v = obj(vec![("b", JsonValue::Number("2".to_string())), ("a", obj(vec![("z", JsonValue::Null), ("y", s("x"))])), ("ab", s(""))]);
    assert_eq!(text(&v), "{\"a\":{\"y\":\"x\",\"z\":null},\"ab\":\"\",\"b\":2}");
    assert_eq!(text(&obj(vec![])), "{}");
}

#[test]
fn keys_order_by_code_point() {
    assert!(key_less("a", "b"));
    assert!(key_less("a", "ab"));
    assert!(!key_less("ab", "a"));
    assert!(!key_less("a", "a"));
    assert!(key_less("Z", "a"));
    assert!(key_less("z", "é"));
    assert!("z".to_string() < "é".to_string());
}

#[test]
fn persisted_start_state_hash_is_stable_across_map_insertion_order() {
    let first = obj(vec![
        ("name", s("demo")),
        ("labels", obj(vec![("team", s("a")), ("env", s("dev"))])),
        ("uuid", s("123")),
    ]);
    let second = obj(vec![
        ("uuid", s("123")),
        ("labels", obj(vec![("env", s("dev")), ("team", s("a"))])),
        ("name", s("demo")),
    ]);
    let h1 = sandbox_state_sha256(&first);
    assert_eq!(h1, sandbox_state_sha256(&second));
    assert_eq!(h1.len(), 64);
    let changed = obj(vec![("name", s("demo2")), ("labels", obj(vec![])), ("uuid", s("123"))]);
    assert_ne!(h1, sandbox_state_sha256(&changed));
}

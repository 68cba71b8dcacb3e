use mia_secret::security::{is_sensitive_key, redact_json, JsonValue};

fn obj(members: Vec<(&str, JsonValue)>) -> JsonValue {
    JsonValue::Object(members.into_iter().map(|(k, v)| (k.to_owned(), v)).collect())
}

fn text(s: &str) -> JsonValue {
    JsonValue::Str(s.to_owned())
}

fn member<'a>(v: &'a JsonValue, key: &str) -> &'a JsonValue {
    match v {
        JsonValue::Object(m) => &m.iter().find(|(k, _)| k == key).expect("member").1,
        _ => panic!("not an object"),
    }
}

fn item(v: &JsonValue, i: usize) -> &JsonValue {
    match v {
        JsonValue::Array(a) => &a[i],
        _ => panic!("not an array"),
    }
}

fn as_text(v: &JsonValue) -> &str {
    match v {
        JsonValue::Str(s) => s,
        _ => panic!("not a string"),
    }
}

#[test]
fn redacts_sensitive_keys_recursively() {
    let input = obj(vec![
        ("password", text("abc")),
        ("nested", obj(vec![("token", text("secret-token")), ("safe", JsonValue::Number("1".to_owned()))])),
        (
            "arr",
            JsonValue::Array(vec![obj(vec![("master_key", text("k"))]), obj(vec![("value", text("ok"))])]),
        ),
    ]);
    let out = redact_json(&input);
    assert_eq!(as_text(member(&out, "password")), "***REDACTED***");
    assert_eq!(as_text(member(member(&out, "nested"), "token")), "***REDACTED***");
    assert!(matches!(member(member(&out, "nested"), "safe"), JsonValue::Number(n) if n == "1"));
    assert_eq!(as_text(member(item(member(&out, "arr"), 0), "master_key")), "***REDACTED***");
    assert_eq!(as_text(member(item(member(&out, "arr"), 1), "value")), "ok");
}

#[test]
fn sensitive_keys_ignore_ascii_case_and_match_fragments() {
    for key in ["PASSWORD", "x_Token_y", "client_secret", "MasterKey", "api_key", "Authorization", "notes", "custom_fields"] {
        assert!(is_sensitive_key(key), "{key}");
    }
    for key in ["name", "note", "path", "custom-fields", "tok"] {
        assert!(!is_sensitive_key(key), "{key}");
    }
}

#[test]
fn redaction_replaces_whole_values_and_is_idempotent() {
    let input = obj(vec![
        ("secret", obj(vec![("inner", text("x"))])),
        ("list", JsonValue::Array(vec![JsonValue::Null, JsonValue::Bool(true)])),
    ]);
    let once = redact_json(&input);
    assert_eq!(as_text(member(&once, "secret")), "***REDACTED***");
    assert!(matches!(item(member(&once, "list"), 0), JsonValue::Null));
    assert!(matches!(item(member(&once, "list"), 1), JsonValue::Bool(true)));
    let twice = redact_json(&once);
    assert_eq!(format!("{once:?}"), format!("{twice:?}"));
}

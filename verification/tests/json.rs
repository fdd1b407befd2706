use ddog::json::JsonValue;

fn sample() -> JsonValue {
    JsonValue::Object(vec![
        (
            "a".to_string(),
            JsonValue::Array(vec![
                JsonValue::Number("1".to_string()),
                JsonValue::Object(vec![("b/c".to_string(), JsonValue::Bool(false))]),
            ]),
        ),
        ("m~n".to_string(), JsonValue::Str("tab\there".to_string())),
    ])
}

#[test]
fn pointer_follows_rfc6901() {
    let v = sample();
    assert_eq!(v.pointer(""), Some(&v));
    assert_eq!(v.pointer("/a/0"), Some(&JsonValue::Number("1".to_string())));
    assert_eq!(v.pointer("/a/1/b~1c"), Some(&JsonValue::Bool(false)));
    assert_eq!(v.pointer("/m~0n"), Some(&JsonValue::Str("tab\there".to_string())));
    assert_eq!(v.pointer("/a/01"), None);
    assert_eq!(v.pointer("/a/2"), None);
    assert_eq!(v.pointer("a"), None);
}

#[test]
fn compact_text_escapes_strings() {
    assert_eq!(
        sample().to_text(),
        "{\"a\":[1,{\"b/c\":false}],\"m~n\":\"tab\\there\"}"
    );
    assert_eq!(JsonValue::Str("\u{1}".to_string()).to_text(), "\"\\u0001\"");
    assert_eq!(JsonValue::Array(vec![]).to_text(), "[]");
}

#[test]
fn get_and_accessors() {
    let v = sample();
    assert!(v.get("a").unwrap().as_array().is_some());
    assert_eq!(v.get("m~n").unwrap().as_str().map(|s| s.as_str()), Some("tab\there"));
    assert!(v.get("zz").is_none());
    assert!(JsonValue::Null.is_null());
    assert_eq!(v.copy(), v);
}

use apipost_ui::json::{
    compact_json, escape_json_string, format_json, format_json_value, is_valid_json, pretty_json_or_same,
    JsonFormatOptions, JsonValue,
};

#[test]
fn escape_cases() {
    assert_eq!(escape_json_string("a\"b\\c\n\r\t"), "a\\\"b\\\\c\\n\\r\\t");
    assert_eq!(escape_json_string("\u{1}\u{7f}\u{9f}é"), "\\u0001\\u007f\\u009fé");
}

#[test]
fn folded_printing() {
    let v = JsonValue::Object(vec![
        ("a".to_string(), JsonValue::Array(vec![JsonValue::Number("1".to_string()), JsonValue::Null])),
        ("b".to_string(), JsonValue::Object(vec![("c".to_string(), JsonValue::Bool(true))])),
        ("s".to_string(), JsonValue::Str("x\"y".to_string())),
        ("e".to_string(), JsonValue::Array(Vec::new())),
    ]);
    assert_eq!(
        format_json_value(&v, 0, 0, 2),
        "{\n  \"a\": [\n    1,\n    null\n  ],\n  \"b\": {\n    \"c\": true\n  },\n  \"s\": \"x\\\"y\",\n  \"e\": []\n}"
    );
    assert_eq!(
        format_json_value(&v, 0, 1, 2),
        "{\n  \"a\": [ 2 items... ],\n  \"b\": { 1 keys... },\n  \"s\": \"x\\\"y\",\n  \"e\": []\n}"
    );
    assert_eq!(format_json_value(&v, 0, 0, 0), "{\n\"a\": [\n1,\nnull\n],\n\"b\": {\n\"c\": true\n},\n\"s\": \"x\\\"y\",\n\"e\": []\n}");
}

#[test]
fn format_json_options() {
    let opts = JsonFormatOptions::default();
    assert_eq!(opts.max_depth, 3);
    assert_eq!(format_json("{\"a\":{\"b\":{\"c\":{\"d\":1}}}}", &opts), "{\n  \"a\": {\n    \"b\": {\n      \"c\": { 1 keys... }\n    }\n  }\n}");
    assert_eq!(format_json("nope", &opts), "nope");
    let plain = JsonFormatOptions { max_depth: 0, enable_fold: false, indent_size: 4 };
    assert_eq!(format_json("[1]", &plain), "[\n  1\n]");
}

#[test]
fn compact_pretty_and_validity() {
    assert_eq!(compact_json("{ \"b\" : [ 1 , 2 ] , \"a\" : null }"), "{\"a\":null,\"b\":[1,2]}");
    assert_eq!(compact_json("{oops"), "{oops");
    assert!(is_valid_json("[1, 2.5, \"x\"]"));
    assert!(!is_valid_json("[1,]"));
    assert_eq!(pretty_json_or_same("{\"k\":false}"), "{\n  \"k\": false\n}");
    assert_eq!(pretty_json_or_same("text"), "text");
}

#[test]
fn folded_printing_escapes_keys() {
    let v = JsonValue::Object(vec![("a\"b\\c".to_string(), JsonValue::Number("1".to_string()))]);
    assert_eq!(format_json_value(&v, 0, 0, 2), "{\n  \"a\\\"b\\\\c\": 1\n}");
    let opts = JsonFormatOptions { max_depth: 0, enable_fold: true, indent_size: 2 };
    let out = format_json("{\"q\\\"k\":[1]}", &opts);
    assert_eq!(out, "{\n  \"q\\\"k\": [\n    1\n  ]\n}");
    assert!(is_valid_json(&out));
}

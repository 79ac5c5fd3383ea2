use image_style_studio::canonical::{canonical_stringify, hash_style_json};
use image_style_studio::json::Json;

fn s(v: &str) -> Json {
    Json::String(v.to_string())
}

fn n(v: &str) -> Json {
    Json::Number(v.to_string())
}

fn obj(entries: Vec<(&str, Json)>) -> Json {
    Json::Object(entries.into_iter().map(|(k, v)| (k.to_string(), v)).collect())
}

#[test]
fn sorts_keys_recursively() {
    let v = obj(vec![
        ("b", n("1")),
        (
            "a",
            obj(vec![
                ("d", Json::Bool(true)),
                ("c", Json::Array(vec![n("1"), s("x"), Json::Null])),
            ]),
        ),
    ]);
    assert_eq!(
        canonical_stringify(&v),
        r#"{"a":{"c":[1,"x",null],"d":true},"b":1}"#
    );
}

#[test]
fn primitives_match_json_stringify() {
    assert_eq!(canonical_stringify(&s("a\"b")), r#""a\"b""#);
    assert_eq!(canonical_stringify(&n("50")), "50");
    assert_eq!(canonical_stringify(&n("1.5")), "1.5");
    assert_eq!(canonical_stringify(&Json::Null), "null");
}

#[test]
fn hash_is_stable_regardless_of_key_order() {
    let a = obj(vec![("x", n("1")), ("y", n("2"))]);
    let b = obj(vec![("y", n("2")), ("x", n("1"))]);
    assert_eq!(hash_style_json(&a), hash_style_json(&b));
}

#[test]
fn hash_of_empty_object_is_sha256_of_braces() {
    let h = hash_style_json(&obj(vec![]));
    assert_eq!(
        h,
        "44136fa355b3678a1146ad16f7e8649e94fb4fc21fe77e8310c060f61caaff8a"
    );
    assert_eq!(h.len(), 64);
}

#[test]
fn hash_differs_for_different_values() {
    let a = obj(vec![("x", n("1"))]);
    let b = obj(vec![("x", n("2"))]);
    assert_ne!(hash_style_json(&a), hash_style_json(&b));
}

#[test]
fn canonical_text_escapes_control_characters() {
    assert_eq!(canonical_stringify(&s("a\nb\u{1}")), "\"a\\nb\\u0001\"");
    assert_eq!(canonical_stringify(&s("ü")), "\"ü\"");
}

#[test]
fn canonical_text_keeps_array_order_and_sorts_nested_keys() {
    let v = Json::Array(vec![obj(vec![("z", Json::Bool(false)), ("a", Json::Null)]), n("3")]);
    assert_eq!(canonical_stringify(&v), r#"[{"a":null,"z":false},3]"#);
}

#[test]
fn compact_text_keeps_insertion_order() {
    let v = obj(vec![("b", n("1")), ("a", Json::Array(vec![s("x"), Json::Bool(true)]))]);
    assert_eq!(v.to_compact_string(), r#"{"b":1,"a":["x",true]}"#);
}

#[test]
fn pretty_text_indents_by_two_spaces() {
    let v = obj(vec![
        ("a", Json::Array(vec![n("1"), n("2")])),
        ("b", obj(vec![])),
        ("c", Json::Array(vec![])),
    ]);
    assert_eq!(
        v.to_pretty_string(),
        "{\n  \"a\": [\n    1,\n    2\n  ],\n  \"b\": {},\n  \"c\": []\n}"
    );
}

#[test]
fn canonical_text_of_sorted_value_is_its_compact_text() {
    let v = obj(vec![
        ("a", Json::Array(vec![obj(vec![("x", n("1")), ("y", s("z"))])])),
        ("b", obj(vec![("c", Json::Null)])),
    ]);
    assert_eq!(canonical_stringify(&v), v.to_compact_string());
}

#[test]
fn canonical_keys_ascend_at_every_depth() {
    let v = obj(vec![
        ("zz", obj(vec![("b", n("2")), ("a", n("1"))])),
        ("Z", n("0")),
        ("a", Json::Array(vec![obj(vec![("y", n("1")), ("x", n("2"))])])),
    ]);
    assert_eq!(
        canonical_stringify(&v),
        r#"{"Z":0,"a":[{"x":2,"y":1}],"zz":{"a":1,"b":2}}"#
    );
}

#[test]
fn canonical_text_is_compact_text_of_key_sorted_value() {
    let v = obj(vec![("b", obj(vec![("y", n("1")), ("x", Json::Array(vec![]))])), ("a", s("q"))]);
    let sorted = obj(vec![("a", s("q")), ("b", obj(vec![("x", Json::Array(vec![])), ("y", n("1"))]))]);
    assert_eq!(canonical_stringify(&v), sorted.to_compact_string());
}

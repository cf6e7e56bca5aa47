//! An end-to-end comparison of two larger documents, checking the exact
//! difference document.

use jsondiff::{deep_clone, evaluate, validate_document, value_eq, Value};

fn s(t: &str) -> String {
    t.to_string()
}

fn obj(entries: Vec<(&str, Value)>) -> Value {
    Value::Object(entries.into_iter().map(|(k, v)| (s(k), v)).collect())
}

fn arr(items: Vec<Value>) -> Value {
    Value::Array(items)
}

fn removed(key: &str, parent: &Value) -> Value {
    obj(vec![
        ("item_key_removed", Value::Text(s(key))),
        ("original_value_key_does_not_exist", deep_clone(parent)),
    ])
}

fn inequality(a: Value, b: Value) -> Value {
    obj(vec![("original_value", a), ("comparing_value", b)])
}

fn original_document() -> Value {
    obj(vec![
        (
            "vector",
            arr(vec![
                obj(vec![("key", Value::Text(s("value")))]),
                obj(vec![("key2", Value::Text(s("value2")))]),
                obj(vec![(
                    "key3",
                    arr(vec![Value::Text(s("value3")), Value::Text(s("value4"))]),
                )]),
            ]),
        ),
        ("object", obj(vec![("key3", Value::Text(s("value3")))])),
        ("bool", Value::Boolean(true)),
        ("number", Value::Number(4)),
        ("string", Value::Text(s("value5"))),
        ("null_key", Value::Null),
        (
            "metadata",
            obj(vec![
                ("name", Value::Text(s("161bee39-cf07-4e31-90ba-6593c9f505cb"))),
                (
                    "labels",
                    obj(vec![
                        ("application", Value::Text(s("api"))),
                        ("owner", Value::Text(s("team_x"))),
                    ]),
                ),
                ("expires", Value::Text(s("2021-12-06T20:49:04.136656523Z"))),
                ("id", Value::Number(1638823144137190452)),
            ]),
        ),
        ("spec", obj(vec![("hostname", Value::Text(s("host1.example.com")))])),
    ])
}

fn comparison_document() -> Value {
    obj(vec![
        ("bool", Value::Text(s("default"))),
        (
            "metadata",
            obj(vec![(
                "labels",
                obj(vec![
                    ("application", Value::Text(s("api"))),
                    ("owner", Value::Text(s("team_"))),
                ]),
            )]),
        ),
    ])
}

#[test]
fn demonstration_documents_are_valid() {
    assert!(validate_document(&original_document()).is_ok());
    assert!(validate_document(&comparison_document()).is_ok());
}

#[test]
fn demonstration_comparison_yields_expected_document() {
    let a = original_document();
    let b = comparison_document();
    let a_metadata = obj(vec![
        ("name", Value::Text(s("161bee39-cf07-4e31-90ba-6593c9f505cb"))),
        (
            "labels",
            obj(vec![
                ("application", Value::Text(s("api"))),
                ("owner", Value::Text(s("team_x"))),
            ]),
        ),
        ("expires", Value::Text(s("2021-12-06T20:49:04.136656523Z"))),
        ("id", Value::Number(1638823144137190452)),
    ]);
    let expected = obj(vec![
        ("vector", removed("vector", &a)),
        ("object", removed("object", &a)),
        (
            "bool",
            inequality(Value::Boolean(true), Value::Text(s("default"))),
        ),
        ("number", removed("number", &a)),
        ("string", removed("string", &a)),
        ("null_key", removed("null_key", &a)),
        (
            "metadata",
            obj(vec![
                ("name", removed("name", &a_metadata)),
                (
                    "labels",
                    obj(vec![(
                        "owner",
                        inequality(Value::Text(s("team_x")), Value::Text(s("team_"))),
                    )]),
                ),
                ("expires", removed("expires", &a_metadata)),
                ("id", removed("id", &a_metadata)),
            ]),
        ),
        ("spec", removed("spec", &a)),
    ]);
    let d = evaluate(&a, &b).unwrap();
    assert!(value_eq(&d, &expected), "difference document was {:?}", d);
}

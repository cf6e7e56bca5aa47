//! Tests for classification, type agreement, equality, cloning, and input
//! validation.

use std::collections::HashMap;
use jsondiff::{
    compare_types, deep_clone, get_inner_object_type, validate_document, value_eq, InnerType,
    Metadata, Node, ParseError, Spec, Value,
};

fn s(t: &str) -> String {
    t.to_string()
}

fn obj(entries: Vec<(&str, Value)>) -> Value {
    Value::Object(entries.into_iter().map(|(k, v)| (s(k), v)).collect())
}

#[test]
fn classification_distinguishes_containers_from_leaves() {
    assert_eq!(get_inner_object_type(&obj(vec![])), InnerType::InnerObject);
    assert_eq!(get_inner_object_type(&Value::Array(vec![])), InnerType::InnerArray);
    assert_eq!(get_inner_object_type(&Value::Null), InnerType::InnerValue);
    assert_eq!(get_inner_object_type(&Value::Boolean(true)), InnerType::InnerValue);
    assert_eq!(get_inner_object_type(&Value::Number(4)), InnerType::InnerValue);
    assert_eq!(get_inner_object_type(&Value::Text(s("x"))), InnerType::InnerValue);
}

#[test]
fn compare_types_accepts_matching_kinds() {
    assert!(compare_types(&Value::Null, &Value::Null));
    assert!(compare_types(&Value::Number(1), &Value::Number(2)));
    assert!(compare_types(&Value::Boolean(true), &Value::Boolean(false)));
    assert!(compare_types(&Value::Text(s("a")), &Value::Text(s("b"))));
    assert!(compare_types(&Value::Array(vec![]), &Value::Array(vec![])));
    assert!(compare_types(&obj(vec![]), &obj(vec![])));
}

#[test]
fn compare_types_rejects_differing_kinds() {
    assert!(!compare_types(&Value::Number(5), &Value::Text(s("5"))));
    assert!(!compare_types(&Value::Null, &Value::Boolean(false)));
    assert!(!compare_types(&Value::Array(vec![]), &obj(vec![])));
    assert!(!compare_types(&obj(vec![]), &Value::Null));
}

#[test]
fn value_eq_ignores_object_entry_order() {
    let a = obj(vec![("a", Value::Number(1)), ("b", Value::Number(2))]);
    let b = obj(vec![("b", Value::Number(2)), ("a", Value::Number(1))]);
    assert!(value_eq(&a, &b));
}

#[test]
fn value_eq_respects_array_order() {
    let a = Value::Array(vec![Value::Number(1), Value::Number(2)]);
    let b = Value::Array(vec![Value::Number(2), Value::Number(1)]);
    assert!(!value_eq(&a, &b));
}

#[test]
fn value_eq_distinguishes_lengths_and_keys() {
    assert!(!value_eq(&obj(vec![("a", Value::Number(1))]), &obj(vec![])));
    assert!(!value_eq(
        &obj(vec![("a", Value::Number(1))]),
        &obj(vec![("b", Value::Number(1))]),
    ));
    assert!(!value_eq(
        &Value::Array(vec![Value::Number(1)]),
        &Value::Array(vec![Value::Number(1), Value::Number(1)]),
    ));
}

#[test]
fn deep_clone_preserves_structure() {
    let v = obj(vec![
        ("a", Value::Array(vec![Value::Number(1), Value::Text(s("x"))])),
        ("b", Value::Null),
    ]);
    let c = deep_clone(&v);
    assert!(value_eq(&v, &c));
}

#[test]
fn null_document_is_rejected() {
    assert_eq!(validate_document(&Value::Null), Err(ParseError::NullDocument));
}

#[test]
fn non_null_documents_are_accepted() {
    assert_eq!(validate_document(&obj(vec![])), Ok(()));
    assert_eq!(validate_document(&Value::Number(0)), Ok(()));
    assert_eq!(validate_document(&Value::Boolean(false)), Ok(()));
}

#[test]
fn records_are_constructible_and_cloneable() {
    let mut labels = HashMap::new();
    labels.insert(s("application"), s("api"));
    let node = Node {
        metadata: Metadata {
            name: s("node-1"),
            labels,
            expires: s("2021-12-06T20:49:04Z"),
            id: 1,
        },
        spec: Spec { hostname: s("host1.example.com") },
    };
    let copy = node.clone();
    assert_eq!(copy.spec.hostname, node.spec.hostname);
    assert_eq!(copy.metadata.id, 1);
    assert_eq!(copy.metadata.labels.get("application"), Some(&s("api")));
}

use aerie::utils::{extract_json, extract_json_obj};
use serde_json::Value;

fn hello_world() -> Value {
    let mut m = serde_json::Map::new();
    m.insert("hello".to_string(), Value::String("world".to_string()));
    m.insert("number".to_string(), Value::from(1));
    Value::Object(m)
}

#[test]
fn test_no_json() {
    let input = "nothing to see here, move along";

    assert_eq!(extract_json_obj(input), None);
}

#[test]
fn test_all_json() {
    let input = r#"{"hello": "world", "number": 1}"#;

    assert_eq!(extract_json_obj(input), Some(hello_world()));
}

#[test]
fn test_some_json() {
    let input = r#"Sure. Here's{ your document: {"hello": "world", "number": 1}.\n\
        {Let me know if there's any}thing else, I can hinder you with.}."#;

    assert_eq!(extract_json_obj(input), Some(hello_world()));
}

#[test]
fn extract_array_skips_objects() {
    let input = r#"first {"a": 1} then [1, 2, 3] done"#;
    let expected = Value::Array(vec![Value::from(1), Value::from(2), Value::from(3)]);
    assert_eq!(extract_json(input, true), Some(expected));
}

#[test]
fn extract_array_absent() {
    assert_eq!(extract_json(r#"only {"a": 1} here"#, true), None);
}

#[test]
fn extract_object_from_unbalanced_text() {
    assert_eq!(extract_json("{ { }", false), Some(Value::Object(serde_json::Map::new())));
    assert_eq!(extract_json("{ never closed", false), None);
    assert_eq!(extract_json("}}}{}", false), Some(Value::Object(serde_json::Map::new())));
}

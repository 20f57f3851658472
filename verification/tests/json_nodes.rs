use aerie::nodes::{EnvironmentNode, GatherJson, ValidateJson};
use aerie::values::{FlowValue, ValueKind, WorkflowError};
use std::sync::Arc;

fn json(text: &str) -> FlowValue {
    FlowValue::Json(Arc::new(serde_json::from_str(text).unwrap()))
}

fn schema_node(schema: &str) -> ValidateJson {
    ValidateJson { schema: schema.to_string() }
}

const NEEDS_A: &str = r#"{"type": "object", "required": ["a"]}"#;

#[test]
fn conforming_document_passes_through() {
    let node = schema_node(NEEDS_A);
    let out = node.execute(&vec![None, Some(json(r#"{"a": 1}"#))], "").unwrap();
    assert_eq!(out, vec![json(r#"{"a": 1}"#), FlowValue::Placeholder(ValueKind::Failure)]);
}

#[test]
fn schema_input_overrides_own_schema() {
    let node = schema_node("");
    let out = node.execute(&vec![Some(json(NEEDS_A)), Some(FlowValue::text(r#"{"a": "x"}"#))], "").unwrap();
    assert_eq!(out[0], json(r#"{"a": "x"}"#));
}

#[test]
fn message_text_is_read_as_json() {
    let node = schema_node(NEEDS_A);
    let msg = FlowValue::Message(Arc::new(serde_json::from_str(r#"{"role": "user"}"#).unwrap()));
    let out = node.execute(&vec![None, Some(msg)], r#"{"a": true}"#).unwrap();
    assert_eq!(out[0], json(r#"{"a": true}"#));
}

#[test]
fn nonconforming_document_fails() {
    let node = schema_node(NEEDS_A);
    let err = node.execute(&vec![None, Some(json(r#"{"b": 1}"#))], "").unwrap_err();
    match err {
        WorkflowError::Unknown(m) => assert!(m.starts_with("anyhow... Validation error: ")),
        other => panic!("unexpected {other:?}"),
    }
}

#[test]
fn missing_schema_and_document_are_reported() {
    let err = schema_node("").execute(&vec![None, Some(json("{}"))], "").unwrap_err();
    assert_eq!(err, WorkflowError::Required(vec!["Schema is required".to_string()]));
    let err = schema_node(NEEDS_A).execute(&vec![None, None], "").unwrap_err();
    assert_eq!(err, WorkflowError::Required(vec!["JSON input required".to_string()]));
}

#[test]
fn text_that_is_not_json_is_a_conversion_error() {
    let err = schema_node("{not json").execute(&vec![None, Some(json("{}"))], "").unwrap_err();
    assert!(matches!(err, WorkflowError::Conversion(_)));
    let err = schema_node(NEEDS_A).execute(&vec![None, Some(FlowValue::text("nope"))], "").unwrap_err();
    assert!(matches!(err, WorkflowError::Conversion(_)));
}

#[test]
fn schema_that_does_not_compile_is_refused_before_checking() {
    let node = schema_node(r#"{"type": 5}"#);
    assert!(node.execute_checked(&vec![None, Some(json("{}"))], "").is_none());
    let ok = schema_node(NEEDS_A).execute_checked(&vec![None, Some(json(r#"{"a": 1}"#))], "");
    assert!(matches!(ok, Some(Ok(_))));
}

#[test]
fn wrong_input_kinds_are_required_errors() {
    let err = schema_node(NEEDS_A).execute(&vec![Some(FlowValue::Integer(1)), None], "").unwrap_err();
    assert!(matches!(err, WorkflowError::Required(_)));
}

#[test]
fn gather_makes_an_array_of_the_inputs() {
    let node = GatherJson { count: 5 };
    let inputs = vec![
        Some(json(r#"{"a": 1}"#)),
        Some(FlowValue::text("t")),
        Some(FlowValue::Integer(-3)),
        Some(FlowValue::Message(Arc::new(serde_json::Value::Null))),
        None,
        None,
    ];
    let floats = vec![serde_json::Value::Null; 6];
    let texts = vec![String::new(), String::new(), String::new(), "said".to_string(), String::new(), String::new()];
    let out = node.execute(&inputs, &floats, &texts).unwrap();
    assert_eq!(out, vec![json(r#"[{"a": 1}, "t", -3, "said", null]"#)]);
    let n = GatherJson { count: 1 };
    let out = n.execute(&vec![Some(FlowValue::Number(2.5f64.to_bits())), None], &vec![serde_json::Value::from(2.5f64), serde_json::Value::Null], &vec![String::new(), String::new()]).unwrap();
    assert_eq!(out, vec![json("[2.5]")]);
    let err = n.execute(&vec![None], &vec![serde_json::Value::Null], &vec![String::new()]).unwrap_err();
    assert!(matches!(err, WorkflowError::Required(_)));
}

#[test]
fn environment_is_an_object_of_strings() {
    let out = EnvironmentNode {}.execute(vec![("HOME".into(), "/root".into()), ("LANG".into(), "C".into())]);
    assert_eq!(out, vec![json(r#"{"HOME": "/root", "LANG": "C"}"#)]);
}

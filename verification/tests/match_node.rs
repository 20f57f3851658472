use aerie::nodes::Matcher;
use aerie::values::{FlowValue, ValueKind, WorkflowError};
use serde_json::Value;
use std::sync::Arc;

fn matcher(patterns: &[&str], exact: bool) -> Matcher {
    Matcher {
        kind: ValueKind::Integer,
        patterns: patterns.iter().map(|p| p.to_string()).collect(),
        exact,
    }
}

fn routed(n: usize, pos: usize, data: FlowValue) -> Vec<FlowValue> {
    (0..n)
        .map(|j| if j == pos { data.clone() } else { FlowValue::Placeholder(ValueKind::Integer) })
        .collect()
}

#[test]
fn exact_alternatives_route_by_key() {
    let m = matcher(&["a|b", "c"], true);
    let data = Some(FlowValue::Integer(9));
    let r = m.execute(&vec![Some(FlowValue::text(" b ")), data.clone()], "").unwrap().unwrap();
    assert_eq!(r, routed(3, 0, FlowValue::Integer(9)));
    let r = m.execute(&vec![Some(FlowValue::text("c")), data.clone()], "").unwrap().unwrap();
    assert_eq!(r, routed(3, 1, FlowValue::Integer(9)));
    let r = m.execute(&vec![Some(FlowValue::text("zzz")), data], "").unwrap().unwrap();
    assert_eq!(r, routed(3, 2, FlowValue::Integer(9)));
}

#[test]
fn regex_patterns_route_by_key() {
    let m = matcher(&["^x.*z$", ""], false);
    let data = Some(FlowValue::Integer(1));
    let r = m.execute(&vec![Some(FlowValue::text("xyz")), data.clone()], "").unwrap().unwrap();
    assert_eq!(r, routed(3, 0, FlowValue::Integer(1)));
    let r = m.execute(&vec![Some(FlowValue::text("   ")), data.clone()], "").unwrap().unwrap();
    assert_eq!(r, routed(3, 1, FlowValue::Integer(1)));
    let bad = matcher(&["("], false);
    assert!(matches!(bad.execute(&vec![Some(FlowValue::text("x")), data], ""), Err(WorkflowError::Unknown(_))));
}

#[test]
fn keys_of_other_kinds() {
    let m = matcher(&["said"], true);
    let data = Some(FlowValue::Integer(2));
    let msg = Some(FlowValue::Message(Arc::new(Value::Null)));
    let r = m.execute(&vec![msg, data.clone()], "said").unwrap().unwrap();
    assert_eq!(r, routed(2, 0, FlowValue::Integer(2)));
    let json_text = Some(FlowValue::Json(Arc::new(Value::String("said".to_string()))));
    assert_eq!(m.execute(&vec![json_text, data.clone()], "").unwrap().unwrap(), routed(2, 0, FlowValue::Integer(2)));
    assert_eq!(m.execute(&vec![Some(FlowValue::Integer(3)), data.clone()], "").unwrap(), None);
    let json_number = Some(FlowValue::Json(Arc::new(Value::from(3))));
    assert_eq!(m.execute(&vec![json_number, data.clone()], "").unwrap(), None);
    let json_object = Some(FlowValue::Json(Arc::new(Value::Object(serde_json::Map::new()))));
    assert!(matches!(m.execute(&vec![json_object, data.clone()], ""), Err(WorkflowError::Conversion(_))));
    match m.execute(&vec![None, data], "") {
        Err(WorkflowError::Required(msgs)) => assert_eq!(msgs, vec!["Key is required".to_string()]),
        other => panic!("unexpected {other:?}"),
    }
}

#[test]
fn no_data_no_outputs_and_bad_inputs() {
    let m = matcher(&["a"], true);
    assert_eq!(m.execute(&vec![Some(FlowValue::text("a")), None], "").unwrap(), Some(vec![]));
    assert!(matches!(m.execute(&vec![None], ""), Err(WorkflowError::Required(_))));
    let wrong_kind = vec![Some(FlowValue::text("a")), Some(FlowValue::text("not an integer"))];
    assert!(matches!(m.execute(&wrong_kind, ""), Err(WorkflowError::Required(_))));
    let d = Matcher::default();
    assert!(d.exact && d.patterns.is_empty());
}

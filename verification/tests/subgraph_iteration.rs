use aerie::iterate::{collect_pass, concat_values, merge_groups, par_slice, push_values, simple_results};
use aerie::values::{FlowValue, ValueKind};
use FlowValue::Integer;
use serde_json::Value;
use std::sync::Arc;

#[test]
fn test_slice_empty() {
    let inputs = vec![];
    let sliced = par_slice(&inputs, 0);
    assert_eq!(sliced, vec![]);
}

#[test]
fn test_slice_unconnected() {
    let inputs = vec![None];
    let sliced = par_slice(&inputs, 0);
    assert_eq!(sliced, vec![None]);
}

#[test]
fn test_slice_singleton() {
    let inputs = vec![Some(FlowValue::text_list(&["hello", "goodbye"]))];
    assert_eq!(par_slice(&inputs, 0), vec![Some(FlowValue::text("hello"))]);
}

#[test]
fn test_slice_broadcast() {
    let inputs = vec![
        Some(FlowValue::text_list(&["hello", "goodbye"])),
        None,
        Some(Integer(42)),
    ];

    assert_eq!(
        par_slice(&inputs, 1),
        vec![Some(FlowValue::text("goodbye")), None, Some(Integer(42))]
    );
}

#[test]
fn test_push_replace() {
    let mut acc = FlowValue::Placeholder(ValueKind::Integer);
    push_values(&mut acc, Some(Integer(3)));

    assert_eq!(acc, FlowValue::Integer(3))
}

#[test]
fn test_push_first_value() {
    let mut acc = FlowValue::int_list(&[]);
    push_values(&mut acc, Some(Integer(3)));

    assert_eq!(acc, FlowValue::int_list(&[3]))
}

#[test]
fn test_push_second_value() {
    let mut acc = FlowValue::int_list(&[0]);
    push_values(&mut acc, Some(Integer(5)));

    assert_eq!(acc, FlowValue::int_list(&[0, 5]))
}

#[test]
fn test_concat_empties() {
    let mut left = FlowValue::int_list(&[]);
    let right = FlowValue::int_list(&[]);

    concat_values(&mut left, right);
    assert_eq!(left, FlowValue::int_list(&[]));
}

#[test]
fn test_concat_first() {
    let mut left = FlowValue::int_list(&[]);
    let right = FlowValue::int_list(&[0]);

    concat_values(&mut left, right);
    assert_eq!(left, FlowValue::int_list(&[0]));
}

#[test]
fn test_concat_more() {
    let mut left = FlowValue::int_list(&[24]);
    let right = FlowValue::int_list(&[7]);

    concat_values(&mut left, right);
    assert_eq!(left, FlowValue::int_list(&[24, 7]));
}

#[test]
fn push_none_keeps_accumulator() {
    let mut acc = FlowValue::int_list(&[1]);
    push_values(&mut acc, None);
    assert_eq!(acc, FlowValue::int_list(&[1]));
}

#[test]
fn push_text_onto_text_list() {
    let mut acc = FlowValue::text_list(&["a"]);
    push_values(&mut acc, Some(FlowValue::text("b")));
    assert_eq!(acc, FlowValue::text_list(&["a", "b"]));
}

#[test]
fn concat_text_lists() {
    let mut left = FlowValue::text_list(&["a"]);
    concat_values(&mut left, FlowValue::text_list(&["b", "c"]));
    assert_eq!(left, FlowValue::text_list(&["a", "b", "c"]));
}

#[test]
fn push_and_concat_json_arrays() {
    let empty = Value::Array(vec![]);
    let mut acc = FlowValue::Json(Arc::new(empty));
    push_values(&mut acc, Some(FlowValue::Json(Arc::new(Value::from(1)))));
    assert_eq!(acc, FlowValue::Json(Arc::new(Value::Array(vec![Value::from(1)]))));
    concat_values(&mut acc, FlowValue::Json(Arc::new(Value::Array(vec![Value::from(2)]))));
    assert_eq!(acc, FlowValue::Json(Arc::new(Value::Array(vec![Value::from(1), Value::from(2)]))));
}

#[test]
fn passes_collect_into_lists() {
    let mut acc = vec![FlowValue::int_list(&[]), FlowValue::text_list(&[])];
    collect_pass(&mut acc, &vec![Some(Integer(1)), Some(FlowValue::text("a"))]);
    collect_pass(&mut acc, &vec![Some(Integer(2)), None]);
    assert_eq!(acc, vec![FlowValue::int_list(&[1, 2]), FlowValue::text_list(&["a"])]);
    let mut left = acc.clone();
    merge_groups(&mut left, &acc);
    assert_eq!(left, vec![FlowValue::int_list(&[1, 2, 1, 2]), FlowValue::text_list(&["a", "a"])]);
}

#[test]
fn single_run_results() {
    let r = simple_results(&vec![Some(Integer(4)), None]);
    assert_eq!(
        r,
        vec![
            Integer(4),
            FlowValue::Placeholder(ValueKind::Placeholder),
            FlowValue::Placeholder(ValueKind::Failure)
        ]
    );
}

#[test]
fn checked_collection_refuses_a_json_accumulator_that_is_not_an_array() {
    let mut acc = vec![aerie::values::FlowValue::Json(std::sync::Arc::new(serde_json::Value::Bool(true)))];
    let outs = vec![Some(aerie::values::FlowValue::Json(std::sync::Arc::new(serde_json::Value::Null)))];
    assert!(!aerie::iterate::collect_pass_checked(&mut acc, &outs));
    assert_eq!(acc.len(), 1);
    let mut left = vec![aerie::values::FlowValue::int_list(&[1])];
    assert!(aerie::iterate::merge_groups_checked(&mut left, &vec![aerie::values::FlowValue::int_list(&[2])]));
    assert_eq!(left, vec![aerie::values::FlowValue::int_list(&[1, 2])]);
}

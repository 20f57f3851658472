use aerie::nodes::{find_first, Demote, Fallback, Panic, Preview, Select, Start};
use aerie::values::{FlowValue, ValueKind, WorkflowError};

#[test]
fn find_first_skips_missing() {
    let ins = vec![None, Some(FlowValue::Integer(2)), Some(FlowValue::Integer(3))];
    assert_eq!(find_first(&ins), Some(FlowValue::Integer(2)));
    assert_eq!(find_first(&vec![None, None]), None);
}

#[test]
fn select_passes_first_present() {
    let s = Select { count: 2, kind: ValueKind::Integer };
    let out = s.execute(&vec![None, Some(FlowValue::Integer(4))]).unwrap();
    assert_eq!(out, vec![FlowValue::Integer(4)]);
    match s.execute(&vec![None, None]) {
        Err(WorkflowError::Unknown(m)) => assert_eq!(m, "Select called with empty inputs"),
        other => panic!("unexpected {other:?}"),
    }
}

#[test]
fn demote_passes_first_present() {
    let d = Demote::default();
    assert_eq!(d.kind, ValueKind::Placeholder);
    let out = d.execute(&vec![Some(FlowValue::text("x"))]).unwrap();
    assert_eq!(out, vec![FlowValue::text("x")]);
    match d.execute(&vec![None]) {
        Err(WorkflowError::Unknown(m)) => assert_eq!(m, "Demote called with empty inputs"),
        other => panic!("unexpected {other:?}"),
    }
}

#[test]
fn fallback_passes_inputs_after_failure() {
    let f = Fallback { kinds: vec![ValueKind::Text, ValueKind::Integer] };
    let out = f.execute(&vec![None, Some(FlowValue::text("x")), None]);
    assert_eq!(out, vec![FlowValue::text("x"), FlowValue::Placeholder(ValueKind::Placeholder)]);
}

#[test]
fn start_fills_placeholders_by_pin_kind() {
    let out = Start {}.execute(&vec![None, None, None, None, None]);
    assert_eq!(
        out,
        vec![
            FlowValue::Placeholder(ValueKind::Model),
            FlowValue::Placeholder(ValueKind::Number),
            FlowValue::Placeholder(ValueKind::Chat),
            FlowValue::Placeholder(ValueKind::Json),
            FlowValue::Placeholder(ValueKind::Text),
        ]
    );
}

#[test]
fn panic_lets_empty_input_pass() {
    let p = Panic {};
    assert!(p.execute(&vec![None]).is_ok());
    assert!(p.execute(&vec![Some(FlowValue::text(""))]).is_ok());
    assert!(p.execute(&vec![Some(FlowValue::text("stop"))]).is_err());
}

use aerie::nodes::{Text, TextSplit};
use aerie::text::{is_white_space, split_text};
use std::sync::Arc;

#[test]
fn split_lines_drops_empty_and_trims() {
    assert_eq!(split_text(" a \n\nb\n  \n", TextSplit::Lines), vec!["a", "b", ""]);
    assert_eq!(split_text("", TextSplit::Lines), Vec::<String>::new());
}

#[test]
fn split_paragraphs_and_documents() {
    assert_eq!(split_text("p1\nstill\n\n\n\np2 ", TextSplit::Paragraphs), vec!["p1\nstill", "p2"]);
    assert_eq!(split_text("one\n---\ntwo\n---\n", TextSplit::Documents), vec!["one", "two"]);
    assert_eq!(split_text("a\n\n\nb", TextSplit::Paragraphs), vec!["a", "b"]);
}

#[test]
fn split_words_on_any_white_space() {
    assert_eq!(split_text("  hello\tbig\u{3000}world \n", TextSplit::Words), vec!["hello", "big", "world"]);
    assert!(split_text(" \t ", TextSplit::Words).is_empty());
    assert!(is_white_space('\u{2009}'));
    assert!(!is_white_space('x'));
}

#[test]
fn text_node_uses_input_or_own_text() {
    let node = Text { value: Arc::new("own text".to_string()), delim: Some(TextSplit::Words) };
    assert_eq!(node.execute(&vec![None], ""), vec![FlowValue::text_list(&["own", "text"])]);
    assert_eq!(
        node.execute(&vec![Some(FlowValue::text("in put"))], ""),
        vec![FlowValue::text_list(&["in", "put"])]
    );
    let plain = Text { value: Arc::new("x".to_string()), delim: None };
    assert_eq!(
        plain.execute(&vec![Some(FlowValue::Message(Arc::new(serde_json::Value::Null)))], "said"),
        vec![FlowValue::text("said")]
    );
}

#[test]
fn preview_records_first_input() {
    let p = Preview { uuid: 7 };
    assert_eq!(p.execute(&vec![Some(FlowValue::Integer(1))]), Some((7, FlowValue::Integer(1))));
    assert_eq!(p.execute(&vec![None]), None);
    assert_eq!(p.execute(&vec![]), None);
}

#[test]
fn mismatch_and_panic_reports_name_kinds() {
    use_reports();
}

fn use_reports() {
    let node = aerie::nodes::WorkNode::ParseJson(aerie::nodes::ParseJson::default());
    let err = node.validate(&vec![Some(aerie::values::FlowValue::Integer(3))]).unwrap_err();
    assert_eq!(err, aerie::values::WorkflowError::Required(vec!["Integer is not one of [Text]".to_string()]));
    let err = aerie::nodes::Panic {}.execute(&vec![Some(aerie::values::FlowValue::Integer(1))]).unwrap_err();
    assert_eq!(err, aerie::values::WorkflowError::Unknown("Panic node received a non-empty input: Integer".to_string()));
}

use aerie::agent::{AgentSpec, ChainBreaker, StructuredSubmit};
use aerie::config::ToolSelector;
use aerie::iterate::{iteration_count, seed_result};
use aerie::server_config::Config;
use aerie::values::{FlowValue, ValueKind};
use serde_json::Value;
use std::sync::Arc;

#[test]
fn kinds_and_lists() {
    let all = ValueKind::all();
    assert_eq!(all.len(), 15);
    assert_eq!(ValueKind::Text.as_list(), ValueKind::TextList);
    assert_eq!(ValueKind::Integer.as_list(), ValueKind::IntList);
    assert_eq!(ValueKind::Json.as_list(), ValueKind::Json);
    assert!(ValueKind::MsgList.is_list());
    assert!(!ValueKind::Text.is_list());
    assert_eq!(FlowValue::text_list(&["a"]).kind(), ValueKind::TextList);
    assert_eq!(FlowValue::default(), FlowValue::Placeholder(ValueKind::Placeholder));
    assert!(FlowValue::default().is_placeholder());
    assert_eq!(FlowValue::Integer(3).duplicate(), FlowValue::Integer(3));
}

#[test]
fn iteration_counts() {
    let ins = vec![Some(FlowValue::int_list(&[1, 2, 3])), None, Some(FlowValue::text("x"))];
    assert_eq!(iteration_count(&ins).unwrap(), Some(3));
    let none = vec![Some(FlowValue::text("x"))];
    assert_eq!(iteration_count(&none).unwrap(), None);
    let uneven = vec![Some(FlowValue::int_list(&[1])), Some(FlowValue::text_list(&["a", "b"]))];
    assert!(iteration_count(&uneven).is_err());
}

#[test]
fn seeds_are_empty_lists() {
    assert_eq!(seed_result(ValueKind::IntList), FlowValue::int_list(&[]));
    assert_eq!(seed_result(ValueKind::TextList), FlowValue::text_list(&[]));
    assert!(matches!(seed_result(ValueKind::Json), FlowValue::Json(j) if j.as_array().map(|a| a.is_empty()) == Some(true)));
}

#[test]
fn agent_default_selection_is_everything() {
    let a = AgentSpec::new();
    assert!(a.tool_selection().is_all());
    let own = ToolSelector::empty().with_include("mcp", "x");
    let b = AgentSpec::new().with_tools(Arc::new(own.clone())).with_model("m".to_string());
    assert!(*b.tool_selection() == own);
    assert_eq!(b.model.as_deref(), Some("m"));
}

#[test]
fn structured_submit_tool() {
    let schema = Value::Bool(true);
    let tool = StructuredSubmit::from_schema(&schema);
    assert_eq!(StructuredSubmit::name(), "submit-structured-data");
    let def = tool.definition();
    assert_eq!(def.name, "submit-structured-data");
    assert_eq!(def.parameters, schema);
    assert_eq!(tool.call(Value::from(5)), Ok(Value::from(5)));
}

#[test]
fn chain_breaker_tool() {
    assert_eq!(ChainBreaker::name(), "__break__");
    assert_eq!(
        ChainBreaker::description(),
        "Do not queue any more workflows. Stop running after the current one completes."
    );
    assert_eq!(ChainBreaker.call(), "Stopping workflow chain");
}

#[test]
fn server_defaults() {
    let c = Config::default();
    assert_eq!(c.collection.as_deref(), Some("myproject"));
    assert_eq!(c.qdrant_url.as_deref(), Some("http://localhost:6334"));
    assert!(c.embed_model.is_none());
    assert!(!c.dumps_config());
    if let Some(p) = &c.fastembed_cache {
        assert!(p.ends_with("fastembed"));
    }
    let shown = Config { dump_config: Some(true), ..c.clone() };
    assert!(shown.dumps_config());
    let printed = shown.printable();
    assert!(printed.dump_config.is_none());
    assert_eq!(printed.collection, c.collection);
}

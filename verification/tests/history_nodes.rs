use aerie::agent::{parse_model, AgentSpec};
use aerie::chat::{ChatContent, ChatHistory};
use aerie::context::RootContext;
use aerie::graph::ShadowGraph;
use aerie::nodes::{
    AgentNode, ChatContext, ChatNode, ExtendHistory, Finish, GraftHistory, InvokeTool, MaskHistory, OutputNode,
    ParseJson, StructuredChat, WorkNode,
};
use aerie::values::{FlowValue, ValueKind, WorkflowError};
use serde_json::Value;
use std::sync::Arc;

fn msg(text: &str) -> ChatContent {
    ChatContent::Message(Value::String(text.to_string()))
}

fn chat(texts: &[&str]) -> ChatHistory {
    let contents: Vec<ChatContent> = texts.iter().map(|t| msg(t)).collect();
    ChatHistory::new().extend(contents, None).unwrap().into_owned()
}

fn texts(h: &ChatHistory) -> Vec<String> {
    h.iter()
        .into_iter()
        .map(|e| match &e.content {
            ChatContent::Message(Value::String(s)) => s.clone(),
            _ => "?".to_string(),
        })
        .collect()
}

#[test]
fn model_text_splits_at_first_slash() {
    assert_eq!(parse_model("openai/gpt/4", "x/y"), Ok(("openai".to_string(), "gpt/4".to_string())));
    assert_eq!(parse_model("plain", "ollama/llama"), Ok(("ollama".to_string(), "llama".to_string())));
    assert_eq!(
        parse_model("plain", "also plain"),
        Err("Could not determine LLM provider and model".to_string())
    );
}

#[test]
fn root_inputs_parse_schema() {
    let ctx = RootContext {
        graph: ShadowGraph::empty(),
        model: "m".to_string(),
        temperature: 0,
        history: Arc::new(ChatHistory::new()),
        user_prompt: "hi".to_string(),
    };
    let ins = ctx.inputs().unwrap();
    assert_eq!(ins.len(), 5);
    assert_eq!(ins[0], Some(FlowValue::Model("m".to_string())));
    assert_eq!(ins[3], Some(FlowValue::Json(Arc::new(Value::Object(serde_json::Map::new())))));
    assert_eq!(ins[4], Some(FlowValue::text("hi")));
    let with_schema = RootContext { graph: ShadowGraph::empty().with_schema("[1]"), ..ctx.clone() };
    assert_eq!(
        with_schema.inputs().unwrap()[3],
        Some(FlowValue::Json(Arc::new(Value::Array(vec![Value::from(1)]))))
    );
    let bad = RootContext { graph: ShadowGraph::empty().with_schema("{"), ..ctx };
    match bad.inputs() {
        Err(WorkflowError::Conversion(m)) => assert_eq!(m, "Invalid input schema"),
        other => panic!("unexpected {other:?}"),
    }
}

#[test]
fn output_needs_label_and_value() {
    let out = OutputNode { label: "answer".to_string() };
    assert_eq!(out.execute(&vec![None, Some(FlowValue::Integer(2))]).unwrap(), ("answer".to_string(), FlowValue::Integer(2)));
    assert!(matches!(out.execute(&vec![None]), Err(WorkflowError::Required(_))));
    let unlabelled = OutputNode { label: String::new() };
    match unlabelled.execute(&vec![Some(FlowValue::Integer(2))]) {
        Err(WorkflowError::Required(m)) => assert_eq!(m, vec!["Label is required".to_string()]),
        other => panic!("unexpected {other:?}"),
    }
}

#[test]
fn mask_keeps_last_entries() {
    let mut node = MaskHistory { limit: 2, chat: Arc::new(ChatHistory::new()) };
    let h = chat(&["a", "b", "c"]);
    let out = node.execute(&vec![Some(FlowValue::Chat(Arc::new(h.duplicate()))), None]).unwrap();
    match &out[0] {
        FlowValue::Chat(c) => assert_eq!(texts(c), vec!["b", "c"]),
        other => panic!("unexpected {other:?}"),
    }
    let out = node
        .execute(&vec![Some(FlowValue::Chat(Arc::new(h))), Some(FlowValue::Integer(1))])
        .unwrap();
    match &out[0] {
        FlowValue::Chat(c) => assert_eq!(texts(c), vec!["c"]),
        other => panic!("unexpected {other:?}"),
    }
    assert!(node.execute(&vec![None, None]).is_err());
}

#[test]
fn extend_appends_messages() {
    let mut node = ExtendHistory { count: 2, history: Arc::new(ChatHistory::new()) };
    let h = chat(&["a"]);
    let out = node
        .execute(&vec![
            Some(FlowValue::Chat(Arc::new(h))),
            Some(FlowValue::Message(Arc::new(Value::String("b".to_string())))),
            None,
            None,
        ])
        .unwrap();
    match &out[0] {
        FlowValue::Chat(c) => assert_eq!(texts(c), vec!["a", "b"]),
        other => panic!("unexpected {other:?}"),
    }
}

#[test]
fn graft_hangs_side_conversation() {
    let main = chat(&["a"]);
    let side = main.push(msg("side q"), None).unwrap().into_owned();
    let side = side.push(msg("side a"), None).unwrap().into_owned();
    let mut node = GraftHistory { chat: Arc::new(ChatHistory::new()) };
    let out = node
        .execute(&vec![Some(FlowValue::Chat(Arc::new(main))), Some(FlowValue::Chat(Arc::new(side)))])
        .unwrap();
    match &out[0] {
        FlowValue::Chat(c) => assert_eq!(texts(c), vec!["a", "side q", "side a"]),
        other => panic!("unexpected {other:?}"),
    }
    assert!(node.execute(&vec![None, None]).is_err());
}

#[test]
fn finish_keeps_related_history() {
    let session = chat(&["a"]);
    let longer = session.push(msg("b"), None).unwrap().into_owned();
    let f = Finish {};
    let kept = f.execute(&session, &vec![Some(FlowValue::Chat(Arc::new(longer)))]).unwrap().unwrap();
    assert_eq!(texts(&kept), vec!["a", "b"]);
    assert!(f.execute(&session, &vec![None]).unwrap().is_none());
    let unrelated = chat(&["x"]);
    assert!(f.execute(&session, &vec![Some(FlowValue::Chat(Arc::new(unrelated)))]).is_err());
}

#[test]
fn context_sets_background_document() {
    let mut node = ChatContext { context_doc: "own".to_string(), agent_spec: Arc::new(AgentSpec::new()) };
    let agent = Arc::new(AgentSpec::new().with_model("m".to_string()));
    let out = node.execute(&vec![Some(FlowValue::Agent(agent.clone())), None]).unwrap();
    match &out[0] {
        FlowValue::Agent(a) => {
            assert_eq!(a.context_doc.as_deref().map(|s| s.as_str()), Some("own"));
            assert_eq!(a.model.as_deref(), Some("m"));
        }
        other => panic!("unexpected {other:?}"),
    }
    let out = node.execute(&vec![Some(FlowValue::Agent(agent)), Some(FlowValue::text("doc"))]).unwrap();
    match &out[0] {
        FlowValue::Agent(a) => assert_eq!(a.context_doc.as_deref().map(|s| s.as_str()), Some("doc")),
        other => panic!("unexpected {other:?}"),
    }
    assert!(node.execute(&vec![None, None]).is_err());
}

#[test]
fn agent_node_needs_model_or_agent() {
    let mut node = AgentNode::default();
    assert!(node.execute(&vec![None, None, None, None, None]).is_err());
    let out = node
        .execute(&vec![None, Some(FlowValue::Model("p/m".to_string())), None, None, Some(FlowValue::text("be brief"))])
        .unwrap();
    match &out[0] {
        FlowValue::Agent(a) => {
            assert_eq!(a.model.as_deref(), Some("p/m"));
            assert_eq!(a.preamble.as_deref(), Some("be brief"));
        }
        other => panic!("unexpected {other:?}"),
    }
}

#[test]
fn parse_json_node() {
    let node = ParseJson { text: "{\"a\": 1}".to_string(), extract: false, as_array: false };
    let out = node.execute(&vec![None]).unwrap();
    assert!(matches!(&out[0], FlowValue::Json(_)));
    let extracting = ParseJson { text: String::new(), extract: true, as_array: true };
    let out = extracting.execute(&vec![Some(FlowValue::text("list: [1, 2] end"))]).unwrap();
    match &out[0] {
        FlowValue::Json(v) => assert_eq!(**v, Value::Array(vec![Value::from(1), Value::from(2)])),
        other => panic!("unexpected {other:?}"),
    }
    match extracting.execute(&vec![Some(FlowValue::text("nothing"))]) {
        Err(WorkflowError::Conversion(m)) => assert_eq!(m, "Could not find a JSON array inside text"),
        other => panic!("unexpected {other:?}"),
    }
    let strict = ParseJson { text: "nope".to_string(), extract: false, as_array: false };
    assert!(matches!(strict.execute(&vec![None]), Err(WorkflowError::Conversion(_))));
}

#[test]
fn model_nodes_pins_and_values() {
    let h = Arc::new(chat(&["q", "a"]));
    let node = WorkNode::Chat(ChatNode { prompt: "p".to_string(), history: h.clone() });
    assert_eq!((node.inputs(), node.outputs()), (3, 3));
    assert_eq!(node.in_kinds(2), vec![ValueKind::Text, ValueKind::Message]);
    assert_eq!(node.out_kind(2), ValueKind::Failure);
    assert_eq!(node.value(1), FlowValue::Message(Arc::new(Value::String("a".to_string()))));
    assert_eq!(node.value(2), FlowValue::Placeholder(ValueKind::Failure));
    assert_eq!(node.kind(), "Chat");
    let empty = WorkNode::Chat(ChatNode { prompt: String::new(), history: Arc::new(ChatHistory::new()) });
    assert_eq!(empty.value(1), FlowValue::Placeholder(ValueKind::Message));

    let structured = WorkNode::Structured(StructuredChat {
        prompt: "p".to_string(),
        retries: 1,
        extract: false,
        history: h.clone(),
        tool_name: "submit".to_string(),
        data: Arc::new(Value::Bool(true)),
    });
    assert_eq!((structured.inputs(), structured.outputs()), (4, 5));
    assert_eq!(structured.in_kinds(2), vec![ValueKind::Json]);
    assert_eq!(structured.value(2), FlowValue::text("submit"));
    assert_eq!(structured.value(3), FlowValue::Json(Arc::new(Value::Bool(true))));
    assert_eq!(structured.out_kind(4), ValueKind::Failure);

    let tool = WorkNode::InvokeTool(InvokeTool {
        tool_name: "search".to_string(),
        history: h,
        tool_output: "found".to_string(),
    });
    assert_eq!((tool.inputs(), tool.outputs()), (4, 4));
    assert_eq!(tool.in_kinds(1), vec![ValueKind::Tools]);
    assert_eq!(tool.value(2), FlowValue::text("found"));
    assert_eq!(tool.kind(), "Invoke Tool");
}

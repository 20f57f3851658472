use aerie::agent::AgentSpec;
use aerie::chat::{ChatContent, ChatHistory};
use aerie::nodes::{ChatNode, StructuredChat};
use aerie::structured::{find_call, ModelReply, PromptChoice, StructuredStep, ToolCall};
use aerie::values::{FlowValue, WorkflowError};
use std::sync::Arc;

fn j(text: &str) -> serde_json::Value {
    serde_json::from_str(text).unwrap()
}

fn node(retries: usize, extract: bool) -> StructuredChat {
    StructuredChat {
        prompt: "Give me data".to_string(),
        retries,
        extract,
        history: Arc::new(ChatHistory::new()),
        tool_name: String::new(),
        data: Arc::new(j(r#"{}"#)),
    }
}

fn inputs(schema: Option<serde_json::Value>) -> Vec<Option<FlowValue>> {
    vec![
        Some(FlowValue::Agent(Arc::new(AgentSpec::new()))),
        Some(FlowValue::Chat(Arc::new(ChatHistory::new()))),
        schema.map(|s| FlowValue::Json(Arc::new(s))),
        None,
    ]
}

fn answer(text: &str, calls: Vec<ToolCall>) -> ModelReply {
    let message = serde_json::Value::String(text.to_string());
    ModelReply::Answer { message, text: text.to_string(), tool_calls: calls }
}

#[test]
fn first_tool_call_wins() {
    let calls = vec![
        ToolCall { name: "a".into(), arguments: j(r#"1"#) },
        ToolCall { name: "b".into(), arguments: j(r#"2"#) },
    ];
    assert_eq!(find_call(&calls, "", false, false), Some(("a".to_string(), j(r#"1"#))));
}

#[test]
fn calls_are_found_in_text_only_when_extracting() {
    let text = r#"Here you go: {"name": "submit", "arguments": {"x": 1}} bye"#;
    assert_eq!(find_call(&vec![], text, false, false), None);
    assert_eq!(find_call(&vec![], text, true, false), Some(("submit".to_string(), j(r#"{"x": 1}"#))));
}

#[test]
fn common_name_mistakes_are_put_right() {
    let text = r#"{"tool": "submit", "parameters": {"x": 2}}"#;
    assert_eq!(find_call(&vec![], text, true, false), Some(("submit".to_string(), j(r#"{"x": 2}"#))));
    let text = r#"{"function": "go", "arguments": []}"#;
    assert_eq!(find_call(&vec![], text, true, false), Some(("go".to_string(), j(r#"[]"#))));
}

#[test]
fn any_object_stands_for_the_arguments_under_a_schema() {
    let text = r#"The answer is {"x": 3}."#;
    assert_eq!(find_call(&vec![], text, true, false), None);
    assert_eq!(find_call(&vec![], text, true, true), Some(("???".to_string(), j(r#"{"x": 3}"#))));
}

#[test]
fn missing_parts_are_reported_in_order() {
    let n = node(0, false);
    let mut ins = inputs(None);
    ins[0] = None;
    ins[1] = None;
    assert_eq!(n.prepare(&ins).unwrap_err(), WorkflowError::Required(vec!["Agent is required".into()]));
    let mut ins = inputs(None);
    ins[1] = None;
    assert_eq!(n.prepare(&ins).unwrap_err(), WorkflowError::Required(vec!["Chat history required".into()]));
    let mut empty = node(0, false);
    empty.prompt = String::new();
    assert_eq!(empty.prepare(&inputs(None)).unwrap_err(), WorkflowError::Required(vec!["A prompt is required".into()]));
    let mut ins = inputs(None);
    ins[3] = Some(FlowValue::text(""));
    assert_eq!(n.prepare(&ins).unwrap_err(), WorkflowError::Required(vec!["A prompt is required".into()]));
}

#[test]
fn prepare_gives_the_agent_with_the_schema_and_the_prompt() {
    let n = node(0, false);
    let (agent, prompt) = n.prepare(&inputs(Some(j(r#"{"type": "object"}"#)))).unwrap();
    assert_eq!(agent.schema, Some(Arc::new(j(r#"{"type": "object"}"#))));
    assert_eq!(prompt, PromptChoice::Text("Give me data".into()));
    let mut ins = inputs(None);
    ins[3] = Some(FlowValue::text("other"));
    let (agent, prompt) = n.prepare(&ins).unwrap();
    assert_eq!(agent.schema, None);
    assert_eq!(prompt, PromptChoice::Text("other".into()));
}

#[test]
fn a_run_asks_again_then_gives_up() {
    let n = node(0, false);
    let prompt = j(r#"{"role": "user", "text": "Give me data"}"#);
    let mut run = n.begin(&inputs(None), prompt.clone());
    assert_eq!(run.max_attempts, 1);
    let (history, last) = run.request().unwrap();
    assert!(history.is_empty());
    assert_eq!(last, prompt);

    assert_eq!(run.on_reply(answer("no call", vec![])), StructuredStep::Ask);
    let kinds: Vec<bool> = run.chat.iter().iter().map(|e| matches!(e.content, ChatContent::Error(_))).collect();
    assert_eq!(kinds, vec![false, false, true]);
    let (history, _) = run.request().unwrap();
    assert_eq!(history.len(), 1);

    assert_eq!(run.on_reply(ModelReply::Failed("down".into())), StructuredStep::Failed(WorkflowError::Provider("down".into())));
    assert_eq!(run.attempts, 2);
}

#[test]
fn provider_failure_is_reported_to_the_model() {
    let n = node(1, false);
    let mut run = n.begin(&inputs(None), j(r#"{"role": "user"}"#));
    assert_eq!(run.on_reply(ModelReply::Failed("down".into())), StructuredStep::Ask);
    match &run.chat.iter().last().unwrap().content {
        ChatContent::Error(e) => assert_eq!(e, "Error while invoking provider"),
        other => panic!("unexpected {other:?}"),
    }
}

#[test]
fn arguments_are_checked_against_the_schema() {
    let schema = j(r#"{"type": "object", "required": ["x"]}"#);
    let n = node(0, true);
    let mut run = n.begin(&inputs(Some(schema)), j(r#"{"role": "user"}"#));
    assert!(run.schema_usable());
    let bad = ToolCall { name: "submit".into(), arguments: j(r#"{"y": 1}"#) };
    assert_eq!(run.on_reply(answer("", vec![bad.clone()])), StructuredStep::Ask);
    assert!(matches!(run.on_reply(answer("", vec![bad])), StructuredStep::Failed(WorkflowError::Validation(_))));

    let mut run = n.begin(&inputs(Some(j(r#"{"type": "object", "required": ["x"]}"#))), j(r#"{"role": "user"}"#));
    let step = run.on_reply(answer(r#"ok {"x": 5}"#, vec![]));
    let call = ToolCall { name: "???".into(), arguments: j(r#"{"x": 5}"#) };
    assert_eq!(step, StructuredStep::Done(call.clone()));

    let mut n = node(0, true);
    assert_eq!(n.finish(run, Ok(call)), Ok(()));
    assert_eq!(n.tool_name, "???");
    assert_eq!(*n.data, j(r#"{"x": 5}"#));
    assert_eq!(n.history.iter().len(), 2);
}

#[test]
fn a_schema_that_does_not_compile_is_refused() {
    let n = node(0, true);
    let mut run = n.begin(&inputs(Some(j(r#"{"type": 7}"#))), j(r#"{"role": "user"}"#));
    assert!(!run.schema_usable());
    assert_eq!(run.on_reply_checked(answer("", vec![])), None);
    assert_eq!(run.attempts, 0);
}

fn chat_node(prompt: &str) -> ChatNode {
    ChatNode { prompt: prompt.to_string(), history: Arc::new(ChatHistory::new()) }
}

fn chat_inputs(prompt: Option<FlowValue>) -> Vec<Option<FlowValue>> {
    vec![
        Some(FlowValue::Agent(Arc::new(AgentSpec::new()))),
        Some(FlowValue::Chat(Arc::new(ChatHistory::new()))),
        prompt,
    ]
}

#[test]
fn chat_prompt_choices() {
    let n = chat_node("own");
    let (_, p) = n.prepare(&chat_inputs(None), true, "").unwrap();
    assert_eq!(p, PromptChoice::Text("own".into()));
    let (_, p) = n.prepare(&chat_inputs(Some(FlowValue::text("given"))), true, "").unwrap();
    assert_eq!(p, PromptChoice::Text("given".into()));
    let msg = FlowValue::Message(Arc::new(j(r#"{"role": "user"}"#)));
    let (_, p) = n.prepare(&chat_inputs(Some(msg.clone())), true, "ignored").unwrap();
    assert_eq!(p, PromptChoice::Message(j(r#"{"role": "user"}"#)));
    let (_, p) = n.prepare(&chat_inputs(Some(msg)), false, "their words").unwrap();
    assert_eq!(p, PromptChoice::Text("their words".into()));
    let err = chat_node("").prepare(&chat_inputs(None), true, "").unwrap_err();
    assert_eq!(err, WorkflowError::Required(vec!["A prompt is required".into()]));
    let mut ins = chat_inputs(None);
    ins[0] = None;
    assert_eq!(n.prepare(&ins, true, "").unwrap_err(), WorkflowError::Required(vec!["Agent spec required".into()]));
}

#[test]
fn chat_records_the_reply_in_order() {
    let mut n = chat_node("own");
    let base = ChatHistory::new();
    n.record(&base, vec![j(r#""q""#), j(r#""a""#)]);
    let msgs: Vec<serde_json::Value> = n.history.iter_msgs().into_iter().cloned().collect();
    assert_eq!(msgs, vec![j(r#""q""#), j(r#""a""#)]);
}

fn tool_inputs(name: Option<&str>, args: Option<serde_json::Value>) -> Vec<Option<FlowValue>> {
    vec![
        Some(FlowValue::Chat(Arc::new(ChatHistory::new()))),
        Some(FlowValue::Tools(Arc::new(aerie::config::ToolSelector::empty()))),
        name.map(FlowValue::text),
        args.map(|a| FlowValue::Json(Arc::new(a))),
    ]
}

fn invoker(own: &str) -> aerie::nodes::InvokeTool {
    aerie::nodes::InvokeTool { tool_name: own.to_string(), history: Arc::new(ChatHistory::new()), tool_output: String::new() }
}

#[test]
fn tool_name_comes_from_input_then_node_then_single_tool() {
    let args = Some(j(r#"{"q": 1}"#));
    let (_, name, a) = invoker("own").prepare(&tool_inputs(Some("given"), args.clone()), &vec![]).unwrap();
    assert_eq!((name.as_str(), (*a).clone()), ("given", j(r#"{"q": 1}"#)));
    let (_, name, _) = invoker("own").prepare(&tool_inputs(None, args.clone()), &vec!["only".into()]).unwrap();
    assert_eq!(name, "own");
    let (_, name, _) = invoker("").prepare(&tool_inputs(None, args.clone()), &vec!["only".into()]).unwrap();
    assert_eq!(name, "only");
    let err = invoker("").prepare(&tool_inputs(None, args), &vec!["a".into(), "b".into()]).unwrap_err();
    assert_eq!(err, WorkflowError::Required(vec!["Tool name required".into()]));
    let err = invoker("own").prepare(&tool_inputs(None, None), &vec![]).unwrap_err();
    assert_eq!(err, WorkflowError::Required(vec!["Tool arguments are required".into()]));
    let mut ins = tool_inputs(None, None);
    ins[1] = None;
    assert_eq!(invoker("own").prepare(&ins, &vec![]).unwrap_err(), WorkflowError::Required(vec!["Toolset is required".into()]));
}

#[test]
fn tool_result_joins_the_conversation() {
    let mut n = invoker("t");
    n.record(&ChatHistory::new(), j(r#""result""#), "out".into());
    assert_eq!(n.tool_output, "out");
    let msgs: Vec<serde_json::Value> = n.history.iter_msgs().into_iter().cloned().collect();
    assert_eq!(msgs, vec![j(r#""result""#)]);
}

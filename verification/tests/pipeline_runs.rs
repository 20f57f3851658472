use aerie::chat::{ChatContent, ChatHistory};
use aerie::pipeline::{record_run, step_history, Pipeline};
use serde_json::Value;

fn text(s: &str) -> Value {
    Value::String(s.to_string())
}

#[test]
fn default_pipeline_sends_prompt() {
    let p = Pipeline::default();
    assert_eq!(p.steps.len(), 1);
    assert_eq!(p.steps[0].prompt, "{{user_prompt}}");
    assert!(!p.steps[0].disabled && !p.collapse && p.name.is_empty());
}

#[test]
fn step_history_gathers_messages() {
    let h = ChatHistory::new();
    let h = h.push(ChatContent::Message(text("m1")), None).unwrap().into_owned();
    let h = h.push(ChatContent::Error("oops".to_string()), None).unwrap().into_owned();
    let h = h
        .push(
            ChatContent::Aside {
                automation: "p".to_string(),
                prompt: "q".to_string(),
                collapsed: true,
                content: vec![text("a1"), text("a2")],
            },
            None,
        )
        .unwrap()
        .into_owned();
    let scratch = vec![Ok(text("r1")), Err("failed".to_string()), Ok(text("prompt"))];
    assert_eq!(step_history(&h, &scratch), vec![text("m1"), text("a2"), text("r1")]);
}

#[test]
fn short_run_is_appended_as_is() {
    let h = ChatHistory::new();
    let scratch = vec![Ok(text("prompt")), Err("bad".to_string())];
    let r = record_run(&h, &scratch, "pipe", "hello", "default");
    let entries = r.iter();
    assert_eq!(entries.len(), 2);
    assert_eq!(entries[0].content, ChatContent::Message(text("prompt")));
    assert_eq!(entries[1].content, ChatContent::Error("bad".to_string()));
}

#[test]
fn long_run_is_collapsed() {
    let h = ChatHistory::new();
    let scratch = vec![Ok(text("prompt")), Ok(text("a")), Err("x".to_string()), Ok(text("b"))];
    let r = record_run(&h, &scratch, "pipe", "hello", "default");
    let entries = r.iter();
    assert_eq!(entries.len(), 3);
    assert_eq!(entries[0].content, ChatContent::Message(text("prompt")));
    assert_eq!(
        entries[1].content,
        ChatContent::Aside {
            automation: "pipe".to_string(),
            prompt: "hello".to_string(),
            collapsed: true,
            content: vec![text("a"), text("b")],
        }
    );
    assert_eq!(entries[2].content, ChatContent::Error("x".to_string()));
}

#[test]
fn step_prompt_renders_or_skips() {
    let mut step = aerie::pipeline::Workstep {
        disabled: false,
        temperature: None,
        preamble: None,
        depth: None,
        prompt: "Say: {{ user_prompt }}".to_string(),
        tools: None,
    };
    assert_eq!(step.step_prompt("hi"), Some("Say: hi".to_string()));
    step.prompt = "{% if %}".to_string();
    assert_eq!(step.step_prompt("hi"), None);
    step.prompt = "ok".to_string();
    step.disabled = true;
    assert_eq!(step.step_prompt("hi"), None);
}

#[test]
fn run_log_keeps_the_newest_128() {
    let mut runs: Vec<u32> = (0..128).collect();
    aerie::pipeline::log_run(&mut runs, 128);
    assert_eq!(runs.len(), 128);
    assert_eq!(runs[0], 1);
    assert_eq!(runs[127], 128);
    let mut few = vec![1u32];
    aerie::pipeline::log_run(&mut few, 2);
    assert_eq!(few, vec![1, 2]);
}

#[test]
fn empty_scratch_records_nothing() {
    let h = aerie::chat::ChatHistory::new();
    let r = aerie::pipeline::record_run(&h, &vec![], "p", "u", "default");
    assert!(r.iter().is_empty());
}

use aerie::chat::{ChatContent, ChatHistory, HistoryError};
use serde_json::Value;

fn msg(text: &str) -> ChatContent {
    ChatContent::Message(Value::String(text.to_string()))
}

fn texts(h: &ChatHistory) -> Vec<String> {
    h.iter()
        .into_iter()
        .map(|e| match &e.content {
            ChatContent::Message(Value::String(s)) => s.clone(),
            ChatContent::Error(s) => format!("error: {s}"),
            _ => "?".to_string(),
        })
        .collect()
}

#[test]
fn new_history_is_empty() {
    let h = ChatHistory::new();
    assert_eq!(h.head, "default");
    assert!(h.iter().is_empty());
    assert!(h.last().is_none());
    assert!(!h.has_branch("default"));
}

#[test]
fn push_appends_to_head() {
    let h = ChatHistory::new();
    let h = h.push(msg("one"), None).unwrap().into_owned();
    let h = h.push(msg("two"), None).unwrap().into_owned();
    assert_eq!(texts(&h), vec!["one", "two"]);
    assert!(h.has_branch("default"));
    let last = h.last().unwrap();
    assert_eq!(last.branch, "default");
    assert_eq!(h.find_parent(last.id), Some(h.iter()[0].id));
}

#[test]
fn extend_appends_in_order() {
    let h = ChatHistory::new();
    let h = h
        .extend(vec![msg("a"), ChatContent::Error("bad".to_string()), msg("c")], None)
        .unwrap()
        .into_owned();
    assert_eq!(texts(&h), vec!["a", "error: bad", "c"]);
    assert_eq!(h.iter_msgs().len(), 2);
    let rev: Vec<u128> = h.rev_iter().iter().map(|e| e.id).collect();
    let mut fwd: Vec<u128> = h.iter().iter().map(|e| e.id).collect();
    fwd.reverse();
    assert_eq!(rev, fwd);
}

#[test]
fn branches_fork_and_switch() {
    let h = ChatHistory::new();
    let h = h.push(msg("root"), None).unwrap().into_owned();
    let root = h.last().unwrap().id;
    let h = h.create_branch("side", Some(root)).unwrap().into_owned();
    assert_eq!(h.head, "side");
    let h = h.push(msg("side msg"), None).unwrap().into_owned();
    assert_eq!(texts(&h), vec!["root", "side msg"]);
    let main = h.switch("default").into_owned();
    assert_eq!(texts(&main), vec!["root"]);
    assert_eq!(main.find_common(&h), Some(root));
}

#[test]
fn switch_to_same_branch_borrows() {
    let h = ChatHistory::new();
    assert!(matches!(h.switch("default"), std::borrow::Cow::Borrowed(_)));
    assert!(matches!(h.switch("other"), std::borrow::Cow::Owned(_)));
}

#[test]
fn push_to_named_branch() {
    let h = ChatHistory::new();
    let h = h.push(msg("x"), Some("other")).unwrap().into_owned();
    assert!(h.has_branch("other"));
    assert!(h.iter().is_empty());
    let o = h.switch("other").into_owned();
    assert_eq!(texts(&o), vec!["x"]);
}

#[test]
fn rename_moves_branch() {
    let h = ChatHistory::new();
    let h = h.push(msg("one"), None).unwrap().into_owned();
    let r = h.rename_branch("default", "main").unwrap().into_owned();
    assert!(!r.has_branch("default"));
    assert!(r.has_branch("main"));
    assert_eq!(r.head, "main");
    assert_eq!(r.last().unwrap().branch, "main");
    assert_eq!(texts(&r), vec!["one"]);
}

#[test]
fn rename_missing_branch_fails() {
    let h = ChatHistory::new();
    assert_eq!(h.rename_branch("nope", "x").unwrap_err(), HistoryError::BranchNotFound);
}

#[test]
fn prune_missing_branch_fails() {
    let h = ChatHistory::new();
    assert_eq!(h.prune_branch("nope").unwrap_err(), HistoryError::CannotPrune);
}

#[test]
fn prune_removes_side_branch() {
    let h = ChatHistory::new();
    let h = h.push(msg("root"), None).unwrap().into_owned();
    let root = h.last().unwrap().id;
    let h = h.create_branch("side", Some(root)).unwrap().into_owned();
    let h = h.push(msg("s1"), None).unwrap().into_owned();
    let h = h.push(msg("s2"), None).unwrap().into_owned();
    let p = h.prune_branch("side").unwrap().into_owned();
    assert!(!p.has_branch("side"));
    assert_eq!(p.head, "default");
    assert_eq!(p.store.len(), 1);
    assert_eq!(texts(&p), vec!["root"]);
}

#[test]
fn aside_collapses_into_two_entries() {
    let h = ChatHistory::new();
    let h = h.push(msg("root"), None).unwrap().into_owned();
    let h = h.aside(vec![msg("q"), msg("work"), msg("a")]).unwrap().into_owned();
    assert_eq!(texts(&h), vec!["root", "q", "a"]);
    let last = h.last().unwrap();
    let side: Vec<String> = h
        .iter_aside(last)
        .iter()
        .map(|e| match &e.content {
            ChatContent::Message(Value::String(s)) => s.clone(),
            _ => "?".to_string(),
        })
        .collect();
    assert_eq!(side, vec!["work"]);
}

#[test]
fn aside_of_nothing_changes_nothing() {
    let h = ChatHistory::new();
    let h2 = h.aside(vec![]).unwrap();
    assert!(matches!(h2, std::borrow::Cow::Borrowed(_)));
}

#[test]
fn lineage_lists_forks() {
    let h = ChatHistory::new();
    let h = h.push(msg("root"), None).unwrap().into_owned();
    let root = h.last().unwrap().id;
    let h = h.create_branch("side", Some(root)).unwrap().into_owned();
    let h = h.push(msg("s"), None).unwrap().into_owned();
    let mut edges = h.lineage();
    edges.sort();
    assert_eq!(
        edges,
        vec![
            ("".to_string(), "default".to_string()),
            ("default".to_string(), "side".to_string())
        ]
    );
}

#[test]
fn with_base_starts_iteration_after_base() {
    let h = ChatHistory::new();
    let h = h.extend(vec![msg("a"), msg("b"), msg("c")], None).unwrap().into_owned();
    let first = h.iter()[0].id;
    let based = h.with_base(Some(first)).into_owned();
    assert_eq!(texts(&based), vec!["b", "c"]);
    assert!(h.is_subset(&based));
}

#[test]
fn iter_between_without_start_begins_at_the_root() {
    let h = ChatHistory::new();
    let h = h.extend(vec![msg("a"), msg("b")], None).unwrap().into_owned();
    let ids: Vec<u128> = h.iter().iter().map(|e| e.id).collect();
    let based = h.with_base(Some(ids[0])).into_owned();
    let all: Vec<u128> = based.iter_between(None, ids[1]).iter().map(|e| e.id).collect();
    assert_eq!(all, ids);
    assert_eq!(based.iter_between(None, ids[1])[0].parent, None);
    let after: Vec<u128> = based.iter_between(Some(ids[0]), ids[1]).iter().map(|e| e.id).collect();
    assert_eq!(after, vec![ids[1]]);
    assert_eq!(based.iter().len(), 1);
}

#[test]
fn common_message_of_an_extension_either_way() {
    let h = ChatHistory::new();
    let h = h.extend(vec![msg("a"), msg("b")], None).unwrap().into_owned();
    let tip = h.iter()[1].id;
    let longer = h.push(msg("c"), None).unwrap().into_owned();
    assert_eq!(h.find_common(&longer), Some(tip));
    assert_eq!(longer.find_common(&h), Some(tip));
}

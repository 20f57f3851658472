use aerie::graph::{InPinId, NodeRole, OutPinId, ShadowGraph};
use aerie::store::WorkflowStoreFile;
use std::path::PathBuf;

fn graph_with(desc: &str) -> ShadowGraph {
    ShadowGraph::empty().with_node(1, NodeRole::Start).with_description(desc)
}

#[test]
fn put_then_get() {
    let mut s = WorkflowStoreFile::new(PathBuf::from("workflows.yml"));
    assert!(!s.contains("basic"));
    assert!(s.get("basic").is_none());
    s.put("basic", graph_with("first"));
    assert!(s.contains("basic"));
    assert_eq!(s.description("basic"), "first");
    assert_eq!(s.description("other"), "");
    s.put("basic", graph_with("second"));
    assert_eq!(s.names(), vec!["basic".to_string()]);
    assert_eq!(*s.get("basic").unwrap().description, "second");
    assert_eq!(s.path(), &PathBuf::from("workflows.yml"));
}

#[test]
fn rename_and_remove() {
    let mut s = WorkflowStoreFile::new(PathBuf::from("w.yml"));
    s.put("a", graph_with("A"));
    s.put("b", graph_with("B"));
    s.rename("a", "c");
    assert!(!s.contains("a"));
    assert_eq!(s.description("c"), "A");
    s.rename("missing", "d");
    assert!(!s.contains("d"));
    s.remove("b");
    assert_eq!(s.names(), vec!["c".to_string()]);
    assert_eq!(s.schema("c"), "");
}

#[test]
fn graph_edits() {
    let g = ShadowGraph::empty()
        .with_node(0, NodeRole::Start)
        .with_node(1, NodeRole::Finish)
        .with_wire(OutPinId { node: 0, output: 2 }, InPinId { node: 1, input: 0 });
    assert_eq!(g.wires.len(), 1);
    let r = g.repair();
    assert_eq!(r.start_node(), Some(0));
    assert_eq!(r.finish_node(), Some(1));
    let dropped = g.drop_io(1);
    assert!(dropped.wires.is_empty());
    let off = g.disable_node(1);
    assert!(off.is_disabled(1));
    assert!(!off.enable_node(1).is_disabled(1));
    let gone = g.without_node(0);
    assert!(gone.wires.is_empty());
    assert_eq!(gone.nodes.len(), 1);
    assert!(g.fast_eq(&g.duplicate()));
}

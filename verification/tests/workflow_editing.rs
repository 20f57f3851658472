use aerie::editing::{trim_char, same_graph, EditError, WorkflowState};
use aerie::graph::{NodeRole, ShadowGraph};
use aerie::store::WorkflowStoreFile;
use std::path::PathBuf;

fn store_with(names: &[&str]) -> WorkflowStoreFile {
    let mut s = WorkflowStoreFile::new(PathBuf::from("w.yml"));
    for n in names {
        s.put(n, ShadowGraph::empty().with_description(n));
    }
    s
}

fn state() -> WorkflowState {
    WorkflowState::new(store_with(&["basic", "other"]), None, ShadowGraph::empty(), 0)
}

#[test]
fn opens_basic_by_default() {
    let st = state();
    assert_eq!(st.editing, "basic");
    assert_eq!(*st.shadow.description, "basic");
    assert!(!st.has_changes());
    assert_eq!(st.get_undo_count(), 0);
    let st = WorkflowState::new(store_with(&["x"]), Some("x".to_string()), ShadowGraph::empty(), 0);
    assert_eq!(st.editing, "x");
    let st = WorkflowState::new(store_with(&[]), Some("y".to_string()), ShadowGraph::empty(), 0);
    assert_eq!(st.editing, "basic");
    assert!(st.shadow.nodes.is_empty());
}

#[test]
fn edit_then_undo_then_redo() {
    let mut st = state();
    let before_edit = st.shadow.duplicate();
    let edited = st.shadow.with_node(1, NodeRole::Other);
    assert!(!st.has_history());
    st.cast_shadow(edited.duplicate(), 5_000);
    assert!(st.has_history());
    assert!(st.has_changes());
    assert_eq!(st.get_undo_count(), 1);
    assert_eq!(st.modtime, 5_000);
    st.undo();
    assert!(same_graph(&st.shadow, &before_edit));
    assert!(st.frozen);
    assert_eq!(st.get_undo_count(), 0);
    assert_eq!(st.get_redo_count(), 1);
    st.redo();
    assert!(same_graph(&st.shadow, &edited));
    assert_eq!(st.modtime, 5_000);
    assert_eq!(st.get_redo_count(), 0);
    assert_eq!(st.switch_count, 2);
}

#[test]
fn frozen_ignores_edits() {
    let mut st = state();
    st.frozen = true;
    st.cast_shadow(st.shadow.with_node(1, NodeRole::Other), 10);
    assert_eq!(st.get_undo_count(), 0);
    assert!(st.shadow.nodes.is_empty());
}

#[test]
fn quick_edits_share_a_snapshot() {
    let mut st = state();
    st.cast_shadow(st.shadow.with_node(1, NodeRole::Other), 10_000);
    st.cast_shadow(st.shadow.with_node(2, NodeRole::Other), 10_500);
    assert_eq!(st.get_undo_count(), 2);
    st.cast_shadow(st.shadow.with_node(3, NodeRole::Other), 10_700);
    assert_eq!(st.get_undo_count(), 2);
    st.cast_shadow(st.shadow.with_node(4, NodeRole::Other), 20_000);
    assert_eq!(st.get_undo_count(), 3);
}

#[test]
fn long_history_is_thinned() {
    let mut st = state();
    for i in 0..128u64 {
        st.cast_shadow(st.shadow.with_node(i as usize, NodeRole::Other), 10_000 * (i + 1));
    }
    assert_eq!(st.get_undo_count(), 128);
    st.cast_shadow(st.shadow.with_node(500, NodeRole::Other), 10_000 * 200);
    assert_eq!(st.get_undo_count(), 65);
}

#[test]
fn edit_drops_redo() {
    let mut st = state();
    st.cast_shadow(st.shadow.with_node(1, NodeRole::Other), 10_000);
    st.undo();
    assert_eq!(st.get_redo_count(), 1);
    st.frozen = false;
    st.cast_shadow(st.shadow.with_node(7, NodeRole::Other), 30_000);
    assert_eq!(st.get_redo_count(), 0);
}

#[test]
fn undo_skips_equal_versions() {
    let mut st = state();
    let start = st.shadow.duplicate();
    let a1 = st.shadow.with_node(1, NodeRole::Other);
    let a2 = st.shadow.with_node(1, NodeRole::Other);
    st.cast_shadow(a1, 10_000);
    st.cast_shadow(a2, 20_000);
    assert_eq!(st.get_undo_count(), 2);
    st.undo();
    assert!(same_graph(&st.shadow, &start));
    assert_eq!(st.get_undo_count(), 0);
    assert_eq!(st.get_redo_count(), 1);
}

#[test]
fn switching_keeps_unsaved_work() {
    let mut st = state();
    let edited = st.shadow.with_node(9, NodeRole::Finish);
    st.cast_shadow(edited.duplicate(), 10_000);
    st.switch("other", 20_000);
    assert_eq!(st.editing, "other");
    assert_eq!(*st.shadow.description, "other");
    assert!(!st.frozen);
    st.switch("basic", 30_000);
    assert!(same_graph(&st.shadow, &edited));
    assert_eq!(st.modtime, 10_000);
    assert_eq!(st.get_undo_count(), 1);
    st.switch("new", 40_000);
    assert!(st.shadow.nodes.is_empty());
    assert_eq!(st.modtime, 40_000);
}

#[test]
fn save_stores_shadow() {
    let mut st = state();
    st.cast_shadow(st.shadow.with_node(4, NodeRole::Start), 10_000);
    st.save();
    assert!(!st.has_changes());
    assert_eq!(st.store.get("basic").unwrap().nodes.len(), 1);
    st.remove();
    assert!(!st.store.contains("basic"));
}

#[test]
fn trimming_names() {
    assert_eq!(trim_char("..a.b..", '.'), "a.b");
    assert_eq!(trim_char("....", '.'), "");
    assert_eq!(trim_char("_x_", '_'), "x");
}

#[test]
fn rename_moves_stored_workflow() {
    let mut st = state();
    st.renaming = Some("dir/._fresh_.".to_string());
    assert_eq!(st.rename(), Ok(()));
    assert_eq!(st.editing, "fresh");
    assert!(st.renaming.is_none());
    assert!(st.store.contains("fresh"));
    assert!(!st.store.contains("basic"));
}

#[test]
fn rename_refuses_taken_name() {
    let mut st = state();
    st.renaming = Some("other".to_string());
    assert_eq!(st.rename(), Err(EditError::Exists("other".to_string())));
    assert_eq!(st.editing, "basic");
    assert_eq!(st.rename_to(None), Err(EditError::InvalidName));
    st.renaming = Some("basic".to_string());
    assert_eq!(st.rename(), Ok(()));
    assert!(st.renaming.is_none());
}

#[test]
fn import_picks_free_name() {
    let mut st = state();
    let g = ShadowGraph::empty().with_description("imported");
    st.import_graph("other", "2024-01-01T00:00:00", g.duplicate(), 50_000);
    assert_eq!(st.editing, "other-2024-01-01T00:00:00");
    assert_eq!(*st.shadow.description, "imported");
    assert!(st.has_changes());
    st.import_graph("mine", "t", g, 60_000);
    assert_eq!(st.editing, "mine");
}

#[test]
fn copies_compare_fast_and_cast_nothing() {
    let mut st = state();
    let copy = st.shadow.duplicate();
    assert!(copy.fast_eq(&st.shadow));
    assert!(!st.shadow.fast_eq(&st.shadow.with_node(9, NodeRole::Other)));
    st.cast_shadow(copy, 10_000);
    assert_eq!(st.get_undo_count(), 0);
    assert!(!st.has_changes());
}

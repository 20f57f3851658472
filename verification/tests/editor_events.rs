use aerie::graph::GraphId;
use aerie::ui::{node_shortcuts, viewer_shortcuts, AppEvent, EventQueue, Key, Pane, Shortcut, ViewerAction, ViewerInput};

#[test]
fn queue_is_fifo_among_equals() {
    let mut q = EventQueue::new();
    q.insert(AppEvent::Undo);
    q.insert(AppEvent::Redo);
    q.insert(AppEvent::Freeze(Some(true)));
    assert_eq!(q.len(), 3);
    assert_eq!(q.pop(), Some(AppEvent::Undo));
    assert_eq!(q.pop(), Some(AppEvent::Redo));
    assert_eq!(q.pop(), Some(AppEvent::Freeze(Some(true))));
    assert_eq!(q.pop(), None);
}

#[test]
fn queue_handles_urgent_first() {
    let mut q = EventQueue::new();
    q.insert(AppEvent::UserRunWorkflow);
    q.insert(AppEvent::EnterSubgraph(4));
    q.insert(AppEvent::DisableNode(GraphId(1), 2));
    q.insert(AppEvent::SetPrompt("p".to_string()));
    assert_eq!(q.pop(), Some(AppEvent::DisableNode(GraphId(1), 2)));
    assert_eq!(q.pop(), Some(AppEvent::EnterSubgraph(4)));
    assert_eq!(q.pop(), Some(AppEvent::UserRunWorkflow));
    assert_eq!(q.pop(), Some(AppEvent::SetPrompt("p".to_string())));
    assert_eq!(q.len(), 0);
}

#[test]
fn event_priorities() {
    assert_eq!(AppEvent::LeaveSubgraph(1).priority(), -100);
    assert_eq!(AppEvent::UserRunWorkflow.priority(), -200);
    assert_eq!(AppEvent::Undo.priority(), 0);
}

#[test]
fn shortcut_keys_are_distinct() {
    let all = Shortcut::all();
    assert_eq!(all.len(), 14);
    for (i, a) in all.iter().enumerate() {
        for b in all.iter().skip(i + 1) {
            assert_ne!(a.key(), b.key());
        }
    }
    let redo = Shortcut::Redo.key();
    assert_eq!(redo.logical_key, Key::Z);
    assert!(redo.modifiers.ctrl && redo.modifiers.shift);
}

fn no_input() -> ViewerInput {
    ViewerInput { copy: false, cut: false, back_button: false }
}

#[test]
fn idle_frame_only_pastes() {
    assert_eq!(viewer_shortcuts(false, false, &vec![], no_input()), vec![ViewerAction::Paste]);
    assert!(viewer_shortcuts(true, false, &vec![], no_input()).is_empty());
    assert!(viewer_shortcuts(false, true, &vec![], no_input()).is_empty());
}

#[test]
fn run_shortcuts_ignored_while_running() {
    let pressed = vec![Shortcut::RunWorkflow, Shortcut::Undo];
    assert_eq!(
        viewer_shortcuts(false, true, &pressed, no_input()),
        vec![
            ViewerAction::Send(AppEvent::UserRunWorkflow),
            ViewerAction::Send(AppEvent::Undo)
        ]
    );
    assert!(viewer_shortcuts(true, true, &pressed, no_input()).is_empty());
}

#[test]
fn cut_copies_then_removes() {
    let input = ViewerInput { copy: false, cut: true, back_button: false };
    assert_eq!(
        viewer_shortcuts(false, false, &vec![Shortcut::DisableNode], input),
        vec![
            ViewerAction::Paste,
            ViewerAction::Copy,
            ViewerAction::RemoveSelected,
            ViewerAction::DisableSelected
        ]
    );
}

#[test]
fn copy_and_leave() {
    let input = ViewerInput { copy: true, cut: false, back_button: true };
    assert_eq!(
        viewer_shortcuts(true, false, &vec![Shortcut::SelectAll], input),
        vec![
            ViewerAction::Copy,
            ViewerAction::SelectAll,
            ViewerAction::Copy,
            ViewerAction::Send(AppEvent::LeaveSubgraph(1))
        ]
    );
}

#[test]
fn pane_titles() {
    assert_eq!(Pane::Navigator.tab_title(), "Session");
    assert_eq!(Pane::Messages.tab_title(), "Lineage");
    assert_eq!(Pane::Settings.tab_title(), "Settings");
}

#[test]
fn node_shortcuts_act_on_the_hovered_node() {
    let pressed = vec![Shortcut::RemoveNode, Shortcut::DisableNode];
    assert_eq!(
        node_shortcuts(false, false, &pressed, 7),
        vec![ViewerAction::DisableNode(7), ViewerAction::RemoveNode(7)]
    );
    assert!(node_shortcuts(true, false, &pressed, 7).is_empty());
    assert!(node_shortcuts(false, true, &pressed, 7).is_empty());
    assert!(node_shortcuts(false, false, &vec![Shortcut::Undo], 7).is_empty());
}

use aerie::chat::ChatHistory;
use aerie::graph::{InPinId, OutPinId, Wire};
use aerie::nodes::{Finish, Panic, Select, Start, WorkNode};
use aerie::runner::{ExecState, Prioritized, RunNode, WorkGraph, WorkflowRunner};
use aerie::values::{FlowValue, ValueKind, WorkflowError};
use std::sync::Arc;

fn node(id: usize, node: WorkNode) -> RunNode {
    RunNode { id, node, disabled: false }
}

fn wire(from: usize, output: usize, to: usize, input: usize) -> Wire {
    Wire::from_pins(OutPinId { node: from, output }, InPinId { node: to, input })
}

fn start_inputs() -> Vec<Option<FlowValue>> {
    vec![
        None,
        None,
        Some(FlowValue::Chat(Arc::new(ChatHistory::new()))),
        None,
        Some(FlowValue::text("hi")),
    ]
}

#[test]
fn prioritized_orders_by_priority() {
    let low = Prioritized::new(7usize);
    let high = Prioritized::new(1usize).priority(5);
    assert_eq!(low.priority, 0);
    assert_eq!(high.payload, 1);
    assert!(high > low);
}

#[test]
fn start_to_finish_run() {
    let graph = WorkGraph {
        nodes: vec![node(0, WorkNode::Start(Start {})), node(1, WorkNode::Finish(Finish {}))],
        wires: vec![wire(0, 2, 1, 0)],
        start: Some(0),
        finish: Some(1),
    };
    let mut run = WorkflowRunner::init(graph, start_inputs());
    assert!(!run.is_idle());
    assert!(matches!(run.state_of(1), Some(ExecState::Waiting(_))));

    let (id, ins) = run.next().unwrap().unwrap();
    assert_eq!(id, 0);
    assert_eq!(ins, start_inputs());
    assert!(matches!(run.state_of(0), Some(ExecState::Running)));
    let outs = Start {}.execute(&ins);
    assert_eq!(outs[0], FlowValue::Placeholder(ValueKind::Model));
    assert_eq!(outs[4], FlowValue::text("hi"));
    assert!(run.can_complete(0, &Ok(outs.clone())));
    run.complete(0, Ok(outs)).unwrap();
    assert!(matches!(run.state_of(0), Some(ExecState::Done(_))));

    let (id, ins) = run.next().unwrap().unwrap();
    assert_eq!(id, 1);
    assert_eq!(ins, vec![Some(FlowValue::Chat(Arc::new(ChatHistory::new())))]);
    assert_eq!(run.outputs(), ins);
    run.complete(1, Ok(vec![])).unwrap();
    assert!(run.is_idle());
    assert!(run.next().unwrap().is_none());

    let session = ChatHistory::new();
    let left = run.root_finish(&session).unwrap().unwrap();
    assert!(left.store.is_empty());
}

#[test]
fn run_without_finish_is_unfinished() {
    let graph = WorkGraph {
        nodes: vec![node(0, WorkNode::Start(Start {}))],
        wires: vec![],
        start: Some(0),
        finish: None,
    };
    let mut run = WorkflowRunner::init(graph, start_inputs());
    let (id, ins) = run.next().unwrap().unwrap();
    assert_eq!(id, 0);
    run.complete(0, Ok(Start {}.execute(&ins))).unwrap();
    assert!(matches!(run.next(), Err(WorkflowError::Unfinished(_))));
}

#[test]
fn disabled_node_never_runs() {
    let graph = WorkGraph {
        nodes: vec![
            node(0, WorkNode::Start(Start {})),
            RunNode { id: 5, node: WorkNode::Panic(Panic {}), disabled: true },
        ],
        wires: vec![],
        start: Some(0),
        finish: None,
    };
    let mut run = WorkflowRunner::init(graph, start_inputs());
    assert!(run.state_of(5).is_none());
    let (id, _) = run.next().unwrap().unwrap();
    assert_eq!(id, 0);
    assert!(run.is_idle());
}

#[test]
fn higher_id_runs_first_among_equals() {
    let graph = WorkGraph {
        nodes: vec![
            node(3, WorkNode::Select(Select { count: 1, kind: ValueKind::Text })),
            node(9, WorkNode::Select(Select { count: 1, kind: ValueKind::Text })),
        ],
        wires: vec![],
        start: None,
        finish: None,
    };
    let mut run = WorkflowRunner::init(graph, vec![]);
    let (first, _) = run.next().unwrap().unwrap();
    let (second, _) = run.next().unwrap().unwrap();
    assert_eq!((first, second), (9, 3));
}

#[test]
fn completing_twice_is_not_defined_while_successor_is_ready() {
    let graph = WorkGraph {
        nodes: vec![node(0, WorkNode::Start(Start {})), node(1, WorkNode::Finish(Finish {}))],
        wires: vec![wire(0, 2, 1, 0)],
        start: Some(0),
        finish: Some(1),
    };
    let mut run = WorkflowRunner::init(graph, start_inputs());
    let (id, ins) = run.next().unwrap().unwrap();
    let outs = Start {}.execute(&ins);
    run.complete(id, Ok(outs.clone())).unwrap();
    assert!(matches!(run.state_of(1), Some(ExecState::Ready)));
    assert!(!run.can_complete(0, &Ok(outs)));
    assert!(run.can_complete(0, &Err(WorkflowError::Unknown("boom".to_string()))));
}

#[test]
fn failure_without_handler_ends_run() {
    let graph = WorkGraph {
        nodes: vec![node(0, WorkNode::Start(Start {})), node(1, WorkNode::Finish(Finish {}))],
        wires: vec![wire(0, 2, 1, 0)],
        start: Some(0),
        finish: Some(1),
    };
    let mut run = WorkflowRunner::init(graph, start_inputs());
    let (id, _) = run.next().unwrap().unwrap();
    let err = run.complete(id, Err(WorkflowError::Unknown("boom".to_string())));
    assert!(err.is_err());
    assert!(matches!(run.state_of(0), Some(ExecState::Failed(_))));
}

#[test]
fn shown_state_masks_conversations() {
    let st = ExecState::Done(vec![FlowValue::Chat(Arc::new(ChatHistory::new())), FlowValue::Integer(1)]);
    match st.masked() {
        ExecState::Done(vs) => assert_eq!(vs, vec![FlowValue::Placeholder(ValueKind::Chat), FlowValue::Integer(1)]),
        other => panic!("unexpected {other:?}"),
    }
    assert!(matches!(ExecState::Ready.masked(), ExecState::Ready));
}

#[test]
fn entries_order_by_priority_then_payload() {
    assert!(Prioritized::new(1usize).priority(5) > Prioritized::new(9usize).priority(4));
    assert!(Prioritized::new(2usize).priority(5) > Prioritized::new(1usize).priority(5));
    assert_eq!(Prioritized::new(7usize).priority(3), Prioritized { priority: 3, payload: 7 });
}

//! Running a workflow graph. A node becomes ready when every node it depends
//! on has run (a select node: when any has); of the ready nodes the one with
//! the highest priority runs next; its result decides which of the nodes that
//! depend on it move on. Running a node is the host's part: the runner says
//! which node runs on which inputs, and takes its result back.
use std::sync::Arc;
use vstd::prelude::*;

use crate::collections::{id_set, ids_contains, ids_is_empty, ids_items, ids_new, ids_update, ids_without};
use crate::graph::{InPinId, OutPinId, Wire};
use crate::chat::ChatHistory;
use crate::nodes::{unbased, unrelated_text, Finish, WorkNode};
use crate::values::{FinishState, FlowValue, ValueKind, WorkflowError};

verus! {

/// A payload with the priority it is queued at. Entries order by priority,
/// then by payload (see the `priority` module).
#[derive(Debug, Clone, Copy, PartialEq, Eq)]
pub struct Prioritized<T> {
    pub priority: usize,
    pub payload: T,
}

impl<T> Prioritized<T> {
    /// The payload at priority zero.
    pub fn new(payload: T) -> (r: Self)
        ensures
            r.priority == 0,
            r.payload == payload,
    {
        Prioritized { priority: 0, payload }
    }

    /// The same payload at the given priority.
    pub fn priority(self, priority: usize) -> (r: Self)
        ensures
            r.priority == priority,
            r.payload == self.payload,
    {
        Prioritized { priority, payload: self.payload }
    }
}

/// Whether `a` runs before `b`: a higher priority first, and of equal
/// priorities the higher node id.
pub open spec fn outranks(a: Prioritized<usize>, b: Prioritized<usize>) -> bool {
    a.priority > b.priority || (a.priority == b.priority && a.payload >= b.payload)
}

/// Where a node is in a run.
#[derive(Debug, Clone)]
pub enum ExecState {
    /// Waiting on these nodes.
    Waiting(im::OrdSet<usize>),
    Ready,
    Running,
    /// Ran, with these outputs.
    Done(Vec<FlowValue>),
    Disabled,
    Failed(Arc<WorkflowError>),
}

/// The mathematical value of an [`ExecState`].
pub enum StateView {
    Waiting(Set<usize>),
    Ready,
    Running,
    Done(Seq<FlowValue>),
    Disabled,
    Failed(Arc<WorkflowError>),
}

impl View for ExecState {
    type V = StateView;

    open spec fn view(&self) -> StateView {
        match self {
            ExecState::Waiting(s) => StateView::Waiting(id_set(*s)),
            ExecState::Ready => StateView::Ready,
            ExecState::Running => StateView::Running,
            ExecState::Done(v) => StateView::Done(v@),
            ExecState::Disabled => StateView::Disabled,
            ExecState::Failed(e) => StateView::Failed(*e),
        }
    }
}

/// A value as a state is shown: a conversation is masked by an empty
/// placeholder of its kind, so that the logs do not repeat the session.
pub open spec fn shown_value(v: FlowValue) -> FlowValue {
    match v {
        FlowValue::Chat(_) => FlowValue::Placeholder(ValueKind::Chat),
        _ => v,
    }
}

impl ExecState {
    /// The state as it is shown: the values of a finished node with every
    /// conversation masked (see [`shown_value`]); other states as they are.
    pub fn masked(&self) -> (r: ExecState)
        ensures
            match *self {
                ExecState::Done(vs) => r matches ExecState::Done(ws) && ws@ == vs@.map_values(
                    |v: FlowValue| shown_value(v),
                ),
                _ => r@ == self@,
            },
    {
        match self {
            ExecState::Waiting(s) => ExecState::Waiting(s.clone()),
            ExecState::Ready => ExecState::Ready,
            ExecState::Running => ExecState::Running,
            ExecState::Disabled => ExecState::Disabled,
            ExecState::Failed(e) => ExecState::Failed(e.clone()),
            ExecState::Done(vs) => {
                let mut ws: Vec<FlowValue> = Vec::new();
                let mut k: usize = 0;
                while k < vs.len()
                    invariant
                        k <= vs@.len(),
                        ws@ == vs@.take(k as int).map_values(|v: FlowValue| shown_value(v)),
                    decreases vs@.len() - k,
                {
                    let w = match &vs[k] {
                        FlowValue::Chat(_) => FlowValue::Placeholder(ValueKind::Chat),
                        v => v.duplicate(),
                    };
                    let ghost before = ws@;
                    ws.push(w);
                    proof {
                        assert(vs@.take(k + 1).map_values(|v: FlowValue| shown_value(v)) =~= before.push(
                            shown_value(vs@[k as int]),
                        ));
                    }
                    k += 1;
                }
                assert(vs@.take(vs@.len() as int) == vs@);
                ExecState::Done(ws)
            },
        }
    }
}

/// The views of optional states.
pub open spec fn state_views(s: Seq<Option<ExecState>>) -> Seq<Option<StateView>> {
    s.map_values(
        |x: Option<ExecState>|
            match x {
                Some(st) => Some(st@),
                None => None,
            },
    )
}

/// A node of a graph to run.
#[derive(Debug, Clone)]
pub struct RunNode {
    pub id: usize,
    pub node: WorkNode,
    pub disabled: bool,
}

/// A graph to run: its nodes (each id once), its wires, and the ids it names
/// as its start and its finish.
#[derive(Debug, Clone)]
pub struct WorkGraph {
    pub nodes: Vec<RunNode>,
    pub wires: Vec<Wire>,
    pub start: Option<usize>,
    pub finish: Option<usize>,
}

/// No id occurs twice.
pub open spec fn ids_distinct(nodes: Seq<RunNode>) -> bool {
    forall|i: int, j: int| 0 <= i < j < nodes.len() ==> #[trigger] nodes[i].id != #[trigger] nodes[j].id
}

/// Every node's counts leave room for its pins.
pub open spec fn all_wf(nodes: Seq<RunNode>) -> bool {
    forall|i: int| 0 <= i < nodes.len() ==> (#[trigger] nodes[i]).node.wf()
}

/// Whether node `id` is in the graph.
pub open spec fn has_node(nodes: Seq<RunNode>, id: usize) -> bool {
    exists|i: int| 0 <= i < nodes.len() && #[trigger] nodes[i].id == id
}

/// The position of node `id`.
pub open spec fn index_of(nodes: Seq<RunNode>, id: usize) -> int {
    choose|i: int| 0 <= i < nodes.len() && #[trigger] nodes[i].id == id
}

/// The node `id`.
pub open spec fn node_at(nodes: Seq<RunNode>, id: usize) -> RunNode {
    nodes[index_of(nodes, id)]
}

/// A wire that the run follows: both its ends are nodes of the graph, and
/// its pins are pins of those nodes.
pub open spec fn link_ok(nodes: Seq<RunNode>, w: Wire) -> bool {
    &&& has_node(nodes, w.out_pin.node)
    &&& w.out_pin.output < node_at(nodes, w.out_pin.node).node.output_count()
    &&& has_node(nodes, w.in_pin.node)
    &&& w.in_pin.input < node_at(nodes, w.in_pin.node).node.input_count()
}

/// The output pin that feeds an input pin: of the links into it, the last.
pub open spec fn dep_of(links: Seq<Wire>, pin: InPinId) -> Option<OutPinId>
    decreases links.len(),
{
    if links.len() == 0 {
        None
    } else if links.last().in_pin == pin {
        Some(links.last().out_pin)
    } else {
        dep_of(links.drop_last(), pin)
    }
}

/// Whether some link leads into node `id`.
pub open spec fn has_deps(links: Seq<Wire>, id: usize) -> bool {
    exists|k: int| 0 <= k < links.len() && #[trigger] links[k].in_pin.node == id
}

/// The nodes that node `id` waits on: the nodes of the output pins that feed
/// its input pins.
pub open spec fn dep_nodes(links: Seq<Wire>, id: usize) -> Set<usize> {
    Set::new(
        |m: usize|
            exists|p: usize| #[trigger]
                dep_of(links, InPinId { node: id, input: p }) matches Some(o) && o.node == m,
    )
}

/// The nodes fed by node `id`.
pub open spec fn successors(links: Seq<Wire>, id: usize) -> Set<usize> {
    Set::new(
        |m: usize|
            exists|k: int|
                0 <= k < links.len() && #[trigger] links[k].out_pin.node == id && links[k].in_pin.node
                    == m,
    )
}

/// The state a node starts a run in: waiting on the nodes it depends on;
/// ready when it depends on none, unless it is disabled.
pub open spec fn initial_state(links: Seq<Wire>, n: RunNode) -> Option<StateView> {
    if has_deps(links, n.id) {
        Some(StateView::Waiting(dep_nodes(links, n.id)))
    } else if !n.disabled {
        Some(StateView::Ready)
    } else {
        None
    }
}

/// The queue a run starts with: every node that depends on none and is not
/// disabled, at its priority, in the order of the nodes.
pub open spec fn initial_ready(nodes: Seq<RunNode>, links: Seq<Wire>) -> Seq<Prioritized<usize>>
    decreases nodes.len(),
{
    if nodes.len() == 0 {
        Seq::empty()
    } else {
        let rest = initial_ready(nodes.drop_last(), links);
        let n = nodes.last();
        if !has_deps(links, n.id) && !n.disabled {
            rest.push(Prioritized { priority: n.node.rank() as usize, payload: n.id })
        } else {
            rest
        }
    }
}

/// The first node of a role by position, else the one named.
pub open spec fn repaired(nodes: Seq<RunNode>, named: Option<usize>, start: bool) -> Option<usize> {
    if exists|i: int|
        0 <= i < nodes.len() && (if start {
            #[trigger] nodes[i].node is Start
        } else {
            nodes[i].node is Finish
        }) {
        let i = choose|i: int|
            0 <= i < nodes.len() && (if start {
                #[trigger] nodes[i].node is Start
            } else {
                nodes[i].node is Finish
            }) && forall|j: int|
                0 <= j < i ==> !(if start {
                    #[trigger] nodes[j].node is Start
                } else {
                    nodes[j].node is Finish
                });
        Some(nodes[i].id)
    } else {
        named
    }
}

/// The run of a graph.
pub struct WorkflowRunner {
    nodes: Vec<RunNode>,
    links: Vec<Wire>,
    states: Vec<Option<ExecState>>,
    ready: Vec<Prioritized<usize>>,
    start: Option<usize>,
    finish: Option<usize>,
    inputs: Vec<Option<FlowValue>>,
    outputs: Vec<Option<FlowValue>>,
}

/// The mathematical value of a run.
pub struct RunView {
    pub nodes: Seq<RunNode>,
    pub links: Seq<Wire>,
    pub states: Seq<Option<StateView>>,
    pub ready: Seq<Prioritized<usize>>,
    pub start: Option<usize>,
    pub finish: Option<usize>,
    pub inputs: Seq<Option<FlowValue>>,
    pub outputs: Seq<Option<FlowValue>>,
}

impl View for WorkflowRunner {
    type V = RunView;

    closed spec fn view(&self) -> RunView {
        RunView {
            nodes: self.nodes@,
            links: self.links@,
            states: state_views(self.states@),
            ready: self.ready@,
            start: self.start,
            finish: self.finish,
            inputs: self.inputs@,
            outputs: self.outputs@,
        }
    }
}

impl WorkflowRunner {
    /// The shape the runner keeps: one state per node, ids distinct, node
    /// counts in range, and every link valid.
    pub closed spec fn wf(self) -> bool {
        &&& self.states@.len() == self.nodes@.len()
        &&& forall|k: int| 0 <= k < self.ready@.len() ==> has_node(self.nodes@, #[trigger] self.ready@[k].payload)
        &&& ids_distinct(self.nodes@)
        &&& all_wf(self.nodes@)
        &&& forall|k: int| 0 <= k < self.links@.len() ==> link_ok(self.nodes@, #[trigger] self.links@[k])
    }

    /// The position of node `id`, if the graph has it.
    fn find(&self, id: usize) -> (r: Option<usize>)
        requires
            ids_distinct(self.nodes@),
        ensures
            r is Some == has_node(self.nodes@, id),
            r matches Some(i) ==> i < self.nodes@.len() && self.nodes@[i as int].id == id && i
                == index_of(self.nodes@, id),
    {
        find_node(&self.nodes, id)
    }
}

/// The position of node `id` among `nodes`, if it is there.
fn find_node(nodes: &Vec<RunNode>, id: usize) -> (r: Option<usize>)
    requires
        ids_distinct(nodes@),
    ensures
        r is Some == has_node(nodes@, id),
        r matches Some(i) ==> i < nodes@.len() && nodes@[i as int].id == id && i == index_of(nodes@, id),
{
    let mut i: usize = 0;
    while i < nodes.len()
        invariant
            i <= nodes@.len(),
            ids_distinct(nodes@),
            forall|j: int| 0 <= j < i ==> #[trigger] nodes@[j].id != id,
        decreases nodes@.len() - i,
    {
        if nodes[i].id == id {
            proof {
                let k = index_of(nodes@, id);
                assert(has_node(nodes@, id));
                assert(nodes@[k].id == id);
                if k != i {
                    if k < i {
                        assert(nodes@[k].id != nodes@[i as int].id);
                    } else {
                        assert(nodes@[i as int].id != nodes@[k].id);
                    }
                }
            }
            return Some(i);
        }
        i += 1;
    }
    None
}

/// Whether a wire is one the run follows.
fn check_link(nodes: &Vec<RunNode>, w: Wire) -> (r: bool)
    requires
        ids_distinct(nodes@),
        all_wf(nodes@),
    ensures
        r == link_ok(nodes@, w),
{
    match find_node(nodes, w.out_pin.node) {
        Some(i) => {
            if w.out_pin.output >= nodes[i].node.outputs() {
                return false;
            }
        },
        None => {
            return false;
        },
    }
    match find_node(nodes, w.in_pin.node) {
        Some(j) => {
            proof {
                assert(nodes@[j as int].node.wf());
            }
            w.in_pin.input < nodes[j].node.inputs()
        },
        None => false,
    }
}

/// Whether link `k` is the last one into its input pin.
pub open spec fn last_into(links: Seq<Wire>, k: int) -> bool {
    forall|j: int| k < j < links.len() ==> #[trigger] links[j].in_pin != links[k].in_pin
}

proof fn lemma_dep_of(links: Seq<Wire>, pin: InPinId)
    ensures
        dep_of(links, pin) is Some ==> exists|k: int|
            0 <= k < links.len() && #[trigger] links[k].in_pin == pin && last_into(links, k)
                && dep_of(links, pin) == Some(links[k].out_pin),
        forall|k: int|
            0 <= k < links.len() && #[trigger] links[k].in_pin == pin && last_into(links, k) ==> dep_of(
                links,
                pin,
            ) == Some(links[k].out_pin),
    decreases links.len(),
{
    if links.len() > 0 {
        let rest = links.drop_last();
        lemma_dep_of(rest, pin);
        let n = links.len() - 1;
        if links.last().in_pin == pin {
            assert(links[n].in_pin == pin && last_into(links, n));
            assert forall|k: int|
                0 <= k < links.len() && #[trigger] links[k].in_pin == pin && last_into(links, k) implies dep_of(
                links,
                pin,
            ) == Some(links[k].out_pin) by {
                if k < n {
                    assert(links[n].in_pin != links[k].in_pin);
                }
            }
        } else {
            if dep_of(links, pin) is Some {
                let k = choose|k: int|
                    0 <= k < rest.len() && #[trigger] rest[k].in_pin == pin && last_into(rest, k)
                        && dep_of(rest, pin) == Some(rest[k].out_pin);
                assert(links[k] == rest[k]);
                assert forall|j: int| k < j < links.len() implies #[trigger] links[j].in_pin
                    != links[k].in_pin by {
                    if j < n {
                        assert(rest[j] == links[j]);
                    }
                }
                assert(last_into(links, k));
            }
            assert forall|k: int|
                0 <= k < links.len() && #[trigger] links[k].in_pin == pin && last_into(links, k) implies dep_of(
                links,
                pin,
            ) == Some(links[k].out_pin) by {
                assert(k != n);
                assert(rest[k] == links[k]);
                assert forall|j: int| k < j < rest.len() implies #[trigger] rest[j].in_pin != rest[k].in_pin by {
                    assert(rest[j] == links[j]);
                }
                assert(last_into(rest, k));
            }
        }
    }
}

/// Whether link `k` is the last into its pin.
fn is_last(links: &Vec<Wire>, k: usize) -> (r: bool)
    requires
        k < links@.len(),
    ensures
        r == last_into(links@, k as int),
{
    let n = links.len();
    let mut j: usize = k + 1;
    while j < n
        invariant
            k < j <= links@.len(),
            n == links@.len(),
            forall|q: int| k < q < j ==> #[trigger] links@[q].in_pin != links@[k as int].in_pin,
        decreases links@.len() - j,
    {
        if links[j].in_pin == links[k].in_pin {
            return false;
        }
        j += 1;
    }
    true
}

/// Whether node `id` depends on any node, and the nodes it depends on.
fn deps_of(links: &Vec<Wire>, id: usize) -> (r: (bool, im::OrdSet<usize>))
    ensures
        r.0 == has_deps(links@, id),
        id_set(r.1) == dep_nodes(links@, id),
{
    let mut has = false;
    let mut set = ids_new();
    let mut k: usize = 0;
    while k < links.len()
        invariant
            k <= links@.len(),
            has == exists|q: int| 0 <= q < k && #[trigger] links@[q].in_pin.node == id,
            id_set(set) == Set::new(
                |m: usize|
                    exists|q: int|
                        0 <= q < k && #[trigger] links@[q].in_pin.node == id && last_into(links@, q)
                            && links@[q].out_pin.node == m,
            ),
        decreases links@.len() - k,
    {
        if links[k].in_pin.node == id {
            has = true;
            if is_last(links, k) {
                let ghost before = id_set(set);
                set = ids_update(&set, links[k].out_pin.node);
                proof {
                    assert(id_set(set) =~= Set::new(
                        |m: usize|
                            exists|q: int|
                                0 <= q < k + 1 && #[trigger] links@[q].in_pin.node == id && last_into(
                                    links@,
                                    q,
                                ) && links@[q].out_pin.node == m,
                    ));
                }
            } else {
                assert(id_set(set) =~= Set::new(
                    |m: usize|
                        exists|q: int|
                            0 <= q < k + 1 && #[trigger] links@[q].in_pin.node == id && last_into(
                                links@,
                                q,
                            ) && links@[q].out_pin.node == m,
                ));
            }
        } else {
            assert(id_set(set) =~= Set::new(
                |m: usize|
                    exists|q: int|
                        0 <= q < k + 1 && #[trigger] links@[q].in_pin.node == id && last_into(links@, q)
                            && links@[q].out_pin.node == m,
            ));
        }
        k += 1;
    }
    proof {
        assert forall|m: usize| id_set(set).contains(m) == dep_nodes(links@, id).contains(m) by {
            if id_set(set).contains(m) {
                let q = choose|q: int|
                    0 <= q < links@.len() && #[trigger] links@[q].in_pin.node == id && last_into(
                        links@,
                        q,
                    ) && links@[q].out_pin.node == m;
                let p = links@[q].in_pin.input;
                assert(links@[q].in_pin == InPinId { node: id, input: p });
                lemma_dep_of(links@, InPinId { node: id, input: p });
                assert(dep_of(links@, InPinId { node: id, input: p }) == Some(links@[q].out_pin));
            }
            if dep_nodes(links@, id).contains(m) {
                let p = choose|p: usize| #[trigger]
                    dep_of(links@, InPinId { node: id, input: p }) matches Some(o) && o.node == m;
                lemma_dep_of(links@, InPinId { node: id, input: p });
                let q = choose|q: int|
                    0 <= q < links@.len() && #[trigger] links@[q].in_pin == InPinId { node: id, input: p }
                        && last_into(links@, q) && dep_of(links@, InPinId { node: id, input: p })
                        == Some(links@[q].out_pin);
                assert(links@[q].in_pin.node == id);
            }
        }
        assert(id_set(set) =~= dep_nodes(links@, id));
    }
    (has, set)
}

/// The first node of a role, by position; else the one named.
fn repair_role(nodes: &Vec<RunNode>, named: Option<usize>, start: bool) -> (r: Option<usize>)
    ensures
        r == repaired(nodes@, named, start),
{
    let mut i: usize = 0;
    while i < nodes.len()
        invariant
            i <= nodes@.len(),
            forall|j: int|
                0 <= j < i ==> !(if start {
                    #[trigger] nodes@[j].node is Start
                } else {
                    nodes@[j].node is Finish
                }),
        decreases nodes@.len() - i,
    {
        let hit = if start {
            nodes[i].node.is_start()
        } else {
            nodes[i].node.is_finish()
        };
        if hit {
            proof {
                let k = choose|k: int|
                    0 <= k < nodes@.len() && (if start {
                        #[trigger] nodes@[k].node is Start
                    } else {
                        nodes@[k].node is Finish
                    }) && forall|j: int|
                        0 <= j < k ==> !(if start {
                            #[trigger] nodes@[j].node is Start
                        } else {
                            nodes@[j].node is Finish
                        });
                assert(0 <= i < nodes@.len() && (if start {
                    nodes@[i as int].node is Start
                } else {
                    nodes@[i as int].node is Finish
                }));
                if k < i {
                } else if k > i {
                }
                assert(k == i);
            }
            return Some(nodes[i].id);
        }
        i += 1;
    }
    named
}

impl WorkflowRunner {
    /// Prepares the run of a graph on the given inputs: the links are the
    /// wires whose ends are pins of the graph; a node that a link leads into
    /// waits on the nodes feeding it; every other node is ready unless it is
    /// disabled; the start and finish are the first start and finish nodes.
    pub fn init(graph: WorkGraph, inputs: Vec<Option<FlowValue>>) -> (r: Self)
        requires
            ids_distinct(graph.nodes@),
            all_wf(graph.nodes@),
        ensures
            r.wf(),
            r@.nodes == graph.nodes@,
            r@.links == graph.wires@.filter(|w: Wire| link_ok(graph.nodes@, w)),
            r@.states.len() == graph.nodes@.len(),
            forall|i: int|
                0 <= i < graph.nodes@.len() ==> #[trigger] r@.states[i] == initial_state(
                    r@.links,
                    graph.nodes@[i],
                ),
            r@.ready == initial_ready(graph.nodes@, r@.links),
            r@.start == repaired(graph.nodes@, graph.start, true),
            r@.finish == repaired(graph.nodes@, graph.finish, false),
            r@.inputs == inputs@,
            r@.outputs.len() == 0,
    {
        let nodes = graph.nodes;
        let wires = graph.wires;
        let ghost ok = |w: Wire| link_ok(nodes@, w);
        let mut links: Vec<Wire> = Vec::new();
        let mut i: usize = 0;
        while i < wires.len()
            invariant
                i <= wires@.len(),
                ids_distinct(nodes@),
                all_wf(nodes@),
                ok == (|w: Wire| link_ok(nodes@, w)),
                links@ == wires@.take(i as int).filter(ok),
            decreases wires@.len() - i,
        {
            proof {
                assert(wires@.take(i as int + 1) == wires@.take(i as int).push(wires@[i as int]));
                wires@.take(i as int).lemma_filter_push(wires@[i as int], ok);
            }
            if check_link(&nodes, wires[i]) {
                links.push(wires[i]);
            }
            i += 1;
        }
        assert(wires@.take(wires@.len() as int) == wires@);
        proof {
            assert forall|k: int| 0 <= k < links@.len() implies link_ok(nodes@, #[trigger] links@[k]) by {
                wires@.lemma_filter_pred(ok, k);
            }
        }
        let mut states: Vec<Option<ExecState>> = Vec::new();
        let mut ready: Vec<Prioritized<usize>> = Vec::new();
        let mut j: usize = 0;
        while j < nodes.len()
            invariant
                j <= nodes@.len(),
                all_wf(nodes@),
                states@.len() == j,
                forall|q: int|
                    0 <= q < j ==> #[trigger] state_views(states@)[q] == initial_state(
                        links@,
                        nodes@[q],
                    ),
                ready@ == initial_ready(nodes@.take(j as int), links@),
                forall|k: int| 0 <= k < ready@.len() ==> has_node(nodes@, #[trigger] ready@[k].payload),
            decreases nodes@.len() - j,
        {
            let id = nodes[j].id;
            let (has, set) = deps_of(&links, id);
            proof {
                assert(nodes@.take(j as int + 1).drop_last() == nodes@.take(j as int));
                assert(nodes@.take(j as int + 1).last() == nodes@[j as int]);
            }
            let ghost before = states@;
            if has {
                states.push(Some(ExecState::Waiting(set)));
            } else if !nodes[j].disabled {
                states.push(Some(ExecState::Ready));
                let p = Prioritized::new(id).priority(nodes[j].node.priority());
                let ghost rb = ready@;
                ready.push(p);
                proof {
                    assert(nodes@[j as int].id == id);
                    assert forall|k: int| 0 <= k < ready@.len() implies has_node(nodes@, #[trigger] ready@[k].payload) by {
                        if k < rb.len() {
                            assert(ready@[k] == rb[k]);
                        } else {
                            assert(nodes@[j as int].id == ready@[k].payload);
                        }
                    }
                }
            } else {
                states.push(None);
            }
            proof {
                assert forall|q: int| 0 <= q < j + 1 implies #[trigger] state_views(states@)[q]
                    == initial_state(links@, nodes@[q]) by {
                    if q < j {
                        assert(states@[q] == before[q]);
                        assert(state_views(before)[q] == initial_state(links@, nodes@[q]));
                    }
                }
            }
            j += 1;
        }
        assert(nodes@.take(nodes@.len() as int) == nodes@);
        let start = repair_role(&nodes, graph.start, true);
        let finish = repair_role(&nodes, graph.finish, false);
        WorkflowRunner {
            nodes,
            links,
            states,
            ready,
            start,
            finish,
            inputs,
            outputs: Vec::new(),
        }
    }
}

/// The output pin that feeds an input pin.
fn dep_pin(links: &Vec<Wire>, pin: InPinId) -> (r: Option<OutPinId>)
    ensures
        r == dep_of(links@, pin),
{
    let mut i: usize = links.len();
    assert(links@.take(i as int) == links@);
    while i > 0
        invariant
            i <= links@.len(),
            dep_of(links@, pin) == dep_of(links@.take(i as int), pin),
        decreases i,
    {
        let ghost t = links@.take(i as int);
        assert(t.drop_last() == links@.take(i - 1));
        assert(t.last() == links@[i - 1]);
        if links[i - 1].in_pin == pin {
            return Some(links[i - 1].out_pin);
        }
        i -= 1;
    }
    None
}

/// The position of an entry of the queue that runs first.
pub open spec fn is_best(q: Seq<Prioritized<usize>>, i: int) -> bool {
    0 <= i < q.len() && forall|j: int| 0 <= j < q.len() ==> outranks(q[i], #[trigger] q[j])
}

/// The position of an entry of a non-empty queue that runs first.
fn best_in(q: &Vec<Prioritized<usize>>) -> (r: usize)
    requires
        q@.len() > 0,
    ensures
        is_best(q@, r as int),
        forall|k: int| 0 <= k < q@.len() ==> #[trigger] q@[k].priority <= q@[r as int].priority,
{
    let mut best: usize = 0;
    let mut i: usize = 1;
    while i < q.len()
        invariant
            1 <= i <= q@.len(),
            best < i,
            forall|j: int| 0 <= j < i ==> outranks(q@[best as int], #[trigger] q@[j]),
        decreases q@.len() - i,
    {
        if q[i].priority > q[best].priority || (q[i].priority == q[best].priority && q[i].payload
            >= q[best].payload) {
            best = i;
        }
        i += 1;
    }
    best
}

/// What node `id` receives on input pin `p`: nothing when no link feeds the
/// pin; the output of the feeding node when that node has run (nothing when
/// it is a placeholder); else nothing for a fallback or select node, and for
/// any other node the value that the feeding pin holds outside a run.
pub open spec fn input_on(v: RunView, id: usize, p: int) -> Option<FlowValue> {
    match dep_of(v.links, InPinId { node: id, input: p as usize }) {
        None => None,
        Some(o) => match v.states[index_of(v.nodes, o.node)] {
            Some(StateView::Done(outs)) => if o.output < outs.len() {
                if outs[o.output as int] is Placeholder {
                    None
                } else {
                    Some(outs[o.output as int])
                }
            } else {
                unrun_input(v, id, o)
            },
            _ => unrun_input(v, id, o),
        },
    }
}

/// What a node receives from a pin whose node has not run: nothing for a
/// fallback or select node, else the value the pin holds outside a run.
pub open spec fn unrun_input(v: RunView, id: usize, o: OutPinId) -> Option<FlowValue> {
    if node_at(v.nodes, id).node is Fallback || node_at(v.nodes, id).node is Select {
        None
    } else {
        Some(node_at(v.nodes, o.node).node.held_value(o.output as int))
    }
}

/// What node `id` receives: the run's inputs for the start node; else one
/// value per input pin.
pub open spec fn gathered(v: RunView, id: usize) -> Seq<Option<FlowValue>> {
    if v.start == Some(id) {
        v.inputs
    } else {
        Seq::new(node_at(v.nodes, id).node.input_count(), |p: int| input_on(v, id, p))
    }
}

/// Whether link `k` leads from a failure pin into input pin `p` of node `id`.
pub open spec fn fails_into(v: RunView, id: usize, p: int, k: int) -> bool {
    &&& 0 <= k < v.links.len()
    &&& v.links[k].in_pin == InPinId { node: id, input: p as usize }
    &&& node_at(v.nodes, v.links[k].out_pin.node).node.produces(v.links[k].out_pin.output as int)
        == ValueKind::Failure
}

/// The first input pin (from `p` on, below `n`) that a link from a failure pin
/// leads into, with the first such link (from `k` on, for pin `p`).
pub open spec fn scan_failure(v: RunView, id: usize, p: int, k: int, n: int) -> Option<(int, int)>
    decreases n - p, v.links.len() - k,
{
    if p >= n || k < 0 {
        None
    } else if k >= v.links.len() {
        scan_failure(v, id, p + 1, 0, n)
    } else if fails_into(v, id, p, k) {
        Some((p, k))
    } else {
        scan_failure(v, id, p, k + 1, n)
    }
}

/// The inputs of node `id` with the error of the failed node that feeds its
/// failure input, when there is one.
pub open spec fn injected(v: RunView, id: usize, ins: Seq<Option<FlowValue>>) -> Seq<
    Option<FlowValue>,
> {
    match scan_failure(v, id, 0, 0, node_at(v.nodes, id).node.input_count() as int) {
        Some((p, k)) => match v.states[index_of(v.nodes, v.links[k].out_pin.node)] {
            Some(StateView::Failed(e)) => if p < ins.len() {
                ins.update(p, Some(FlowValue::Failure(e)))
            } else {
                ins
            },
            _ => ins,
        },
        None => ins,
    }
}

impl WorkflowRunner {
    /// What node `id` receives on input pin `p`.
    fn input_on(&self, idx: usize, p: usize) -> (r: Option<FlowValue>)
        requires
            self.wf(),
            idx < self.nodes@.len(),
        ensures
            r == input_on(self@, self.nodes@[idx as int].id, p as int),
    {
        let id = self.nodes[idx].id;
        let pin = InPinId { node: id, input: p };
        match dep_pin(&self.links, pin) {
            None => None,
            Some(o) => {
                proof {
                    lemma_dep_of(self.links@, pin);
                    let k = choose|k: int|
                        0 <= k < self.links@.len() && #[trigger] self.links@[k].in_pin == pin
                            && last_into(self.links@, k) && dep_of(self.links@, pin) == Some(
                            self.links@[k].out_pin,
                        );
                    assert(link_ok(self.nodes@, self.links@[k]));
                }
                let j = self.find(o.node).unwrap();
                proof {
                    assert(self.nodes@[j as int].node.wf());
                    assert(index_of(self.nodes@, id) == idx) by {
                        let q = index_of(self.nodes@, id);
                        assert(has_node(self.nodes@, id));
                        if q != idx {
                            if q < idx {
                                assert(self.nodes@[q].id != self.nodes@[idx as int].id);
                            } else {
                                assert(self.nodes@[idx as int].id != self.nodes@[q].id);
                            }
                        }
                    }
                }
                let done = match &self.states[j] {
                    Some(ExecState::Done(outs)) => {
                        if o.output < outs.len() {
                            if outs[o.output].is_placeholder() {
                                Some(None)
                            } else {
                                Some(Some(outs[o.output].duplicate()))
                            }
                        } else {
                            None
                        }
                    },
                    _ => None,
                };
                match done {
                    Some(v) => v,
                    None => {
                        match &self.nodes[idx].node {
                            WorkNode::Fallback(_) => None,
                            WorkNode::Select(_) => None,
                            _ => Some(self.nodes[j].node.value(o.output)),
                        }
                    },
                }
            },
        }
    }

    /// What node `id` receives.
    fn gather(&self, idx: usize) -> (r: Vec<Option<FlowValue>>)
        requires
            self.wf(),
            idx < self.nodes@.len(),
        ensures
            r@ == gathered(self@, self.nodes@[idx as int].id),
    {
        let id = self.nodes[idx].id;
        proof {
            assert(index_of(self.nodes@, id) == idx) by {
                let q = index_of(self.nodes@, id);
                assert(has_node(self.nodes@, id));
                if q != idx {
                    if q < idx {
                        assert(self.nodes@[q].id != self.nodes@[idx as int].id);
                    } else {
                        assert(self.nodes@[idx as int].id != self.nodes@[q].id);
                    }
                }
            }
            assert(self.nodes@[idx as int].node.wf());
        }
        if self.start == Some(id) {
            let mut out: Vec<Option<FlowValue>> = Vec::new();
            let mut i: usize = 0;
            while i < self.inputs.len()
                invariant
                    i <= self.inputs@.len(),
                    out@ == self.inputs@.take(i as int),
                decreases self.inputs@.len() - i,
            {
                let v = match &self.inputs[i] {
                    Some(x) => Some(x.duplicate()),
                    None => None,
                };
                out.push(v);
                assert(out@ =~= self.inputs@.take(i as int + 1));
                i += 1;
            }
            assert(self.inputs@.take(self.inputs@.len() as int) == self.inputs@);
            out
        } else {
            let n = self.nodes[idx].node.inputs();
            let mut out: Vec<Option<FlowValue>> = Vec::new();
            let mut p: usize = 0;
            while p < n
                invariant
                    self.wf(),
                    idx < self.nodes@.len(),
                    id == self.nodes@[idx as int].id,
                    p <= n,
                    out@.len() == p,
                    forall|q: int| 0 <= q < p ==> #[trigger] out@[q] == input_on(self@, id, q),
                decreases n - p,
            {
                out.push(self.input_on(idx, p));
                p += 1;
            }
            assert(out@ =~= gathered(self@, id));
            out
        }
    }

    /// The inputs of node `id` with the error of the failed node that feeds
    /// its failure input, when there is one.
    fn inject_failure(&self, idx: usize, ins: Vec<Option<FlowValue>>) -> (r: Vec<Option<FlowValue>>)
        requires
            self.wf(),
            idx < self.nodes@.len(),
        ensures
            r@ == injected(self@, self.nodes@[idx as int].id, ins@),
    {
        let ghost v = self@;
        let id = self.nodes[idx].id;
        proof {
            lemma_index(self.nodes@, idx as int);
            assert(self.nodes@[idx as int].node.wf());
        }
        let n = self.nodes[idx].node.inputs();
        let found = self.scan_failure(idx, n);
        match found {
            Some((p, k)) => {
                let w = self.links[k];
                proof {
                    assert(link_ok(self.nodes@, self.links@[k as int]));
                    lemma_scan(v, id, 0, 0, n as int);
                }
                let j = self.find(w.out_pin.node).unwrap();
                proof {
                    assert(v.states[j as int] == match self.states@[j as int] {
                        Some(st) => Some(st@),
                        None => None,
                    });
                }
                match &self.states[j] {
                    Some(ExecState::Failed(e)) => {
                        let mut out = ins;
                        if p < out.len() {
                            out.set(p, Some(FlowValue::Failure(e.clone())));
                        }
                        out
                    },
                    _ => ins,
                }
            },
            None => ins,
        }
    }
}

proof fn lemma_scan(v: RunView, id: usize, p: int, k: int, n: int)
    ensures
        scan_failure(v, id, p, k, n) matches Some((q, j)) ==> p <= q < n && fails_into(v, id, q, j),
    decreases n - p, v.links.len() - k,
{
    if p >= n || k < 0 {
    } else if k >= v.links.len() {
        lemma_scan(v, id, p + 1, 0, n);
    } else if fails_into(v, id, p, k) {
    } else {
        lemma_scan(v, id, p, k + 1, n);
    }
}

/// Node `nodes[i]` is found at position `i`.
proof fn lemma_index(nodes: Seq<RunNode>, i: int)
    requires
        ids_distinct(nodes),
        0 <= i < nodes.len(),
    ensures
        has_node(nodes, nodes[i].id),
        index_of(nodes, nodes[i].id) == i,
{
    let id = nodes[i].id;
    assert(has_node(nodes, id));
    let q = index_of(nodes, id);
    if q != i {
        if q < i {
            assert(nodes[q].id != nodes[i].id);
        } else {
            assert(nodes[i].id != nodes[q].id);
        }
    }
}

impl WorkflowRunner {
    /// The first input pin of node `idx` below `n` that a link from a failure
    /// pin leads into, with the first such link.
    fn scan_failure(&self, idx: usize, n: usize) -> (r: Option<(usize, usize)>)
        requires
            self.wf(),
            idx < self.nodes@.len(),
        ensures
            r matches Some((p, k)) ==> scan_failure(self@, self.nodes@[idx as int].id, 0, 0, n as int)
                == Some((p as int, k as int)) && k < self.links@.len(),
            r is None ==> scan_failure(self@, self.nodes@[idx as int].id, 0, 0, n as int) is None,
    {
        let ghost v = self@;
        let id = self.nodes[idx].id;
        let mut p: usize = 0;
        let mut k: usize = 0;
        while p < n
            invariant
                self.wf(),
                v == self@,
                idx < self.nodes@.len(),
                id == self.nodes@[idx as int].id,
                p <= n,
                k <= self.links@.len(),
                scan_failure(v, id, 0, 0, n as int) == scan_failure(v, id, p as int, k as int, n as int),
            decreases n - p, self.links@.len() - k,
        {
            if k >= self.links.len() {
                assert(scan_failure(v, id, p as int, k as int, n as int) == scan_failure(v, id, p + 1, 0, n as int));
                p += 1;
                k = 0;
            } else {
                let w = self.links[k];
                let hit = if w.in_pin.node == id && w.in_pin.input == p {
                    proof {
                        assert(link_ok(self.nodes@, self.links@[k as int]));
                    }
                    let j = self.find(w.out_pin.node).unwrap();
                    proof {
                        assert(self.nodes@[j as int].node.wf());
                    }
                    self.nodes[j].node.out_kind(w.out_pin.output) == ValueKind::Failure
                } else {
                    false
                };
                proof {
                    assert(hit == fails_into(v, id, p as int, k as int));
                }
                if hit {
                    return Some((p, k));
                }
                assert(scan_failure(v, id, p as int, k as int, n as int) == scan_failure(v, id, p as int, k + 1, n as int));
                k += 1;
            }
        }
        None
    }
}

/// A copy of some inputs.
pub fn copy_inputs(v: &Vec<Option<FlowValue>>) -> (r: Vec<Option<FlowValue>>)
    ensures
        r@ == v@,
{
    let mut out: Vec<Option<FlowValue>> = Vec::new();
    let mut i: usize = 0;
    while i < v.len()
        invariant
            i <= v@.len(),
            out@ == v@.take(i as int),
        decreases v@.len() - i,
    {
        let x = match &v[i] {
            Some(x) => Some(x.duplicate()),
            None => None,
        };
        out.push(x);
        assert(out@ =~= v@.take(i as int + 1));
        i += 1;
    }
    assert(v@.take(v@.len() as int) == v@);
    out
}

/// How the finish node's state is reported when a run stops unfinished: as
/// it is, or as waiting on nothing when the graph has no finish node or the
/// node has no state.
pub open spec fn reports(v: RunView, fs: FinishState) -> bool {
    let st = match v.finish {
        Some(f) => if has_node(v.nodes, f) {
            v.states[index_of(v.nodes, f)]
        } else {
            None
        },
        None => None,
    };
    match st {
        Some(StateView::Waiting(s)) => fs matches FinishState::Waiting(w) && id_set(w) == s,
        Some(StateView::Ready) => fs is Ready,
        Some(StateView::Running) => fs is Running,
        Some(StateView::Done(_)) => fs is Done,
        Some(StateView::Disabled) => fs is Disabled,
        Some(StateView::Failed(_)) => fs is Failed,
        None => fs matches FinishState::Waiting(w) && id_set(w) == Set::<usize>::empty(),
    }
}

impl WorkflowRunner {
    /// The report of the finish node's state.
    fn finish_state(&self) -> (r: FinishState)
        requires
            self.wf(),
        ensures
            reports(self@, r),
    {
        let st = match self.finish {
            Some(f) => match self.find(f) {
                Some(j) => {
                    proof {
                        assert(self@.states[j as int] == match self.states@[j as int] {
                            Some(st) => Some(st@),
                            None => None,
                        });
                    }
                    match &self.states[j] {
                        Some(ExecState::Waiting(s)) => Some(FinishState::Waiting(s.clone())),
                        Some(ExecState::Ready) => Some(FinishState::Ready),
                        Some(ExecState::Running) => Some(FinishState::Running),
                        Some(ExecState::Done(_)) => Some(FinishState::Done),
                        Some(ExecState::Disabled) => Some(FinishState::Disabled),
                        Some(ExecState::Failed(_)) => Some(FinishState::Failed),
                        None => None,
                    }
                },
                None => None,
            },
            None => None,
        };
        match st {
            Some(fs) => fs,
            None => FinishState::Waiting(ids_new()),
        }
    }

    /// The next node to run, with what it receives: of the ready nodes, the
    /// one that ranks first (highest priority, then highest id) leaves the
    /// queue and is marked running. When no node is ready the run halts;
    /// when the finish node has not run by then, that is an error.
    pub fn next(&mut self) -> (r: Result<Option<(usize, Vec<Option<FlowValue>>)>, WorkflowError>)
        requires
            old(self).wf(),
        ensures
            final(self).wf(),
            old(self)@.ready.len() == 0 ==> final(self)@ == old(self)@ && (if old(self)@.outputs.len()
                == 0 {
                r matches Err(WorkflowError::Unfinished(fs)) && reports(old(self)@, fs)
            } else {
                r matches Ok(None)
            }),
            old(self)@.ready.len() > 0 ==> (r matches Ok(Some((id, ins))) && exists|i: int|
                is_best(old(self)@.ready, i) && old(self)@.ready[i].payload == id && has_node(
                    old(self)@.nodes,
                    id,
                ) && ins@ == injected(old(self)@, id, gathered(old(self)@, id)) && final(self)@
                    == (RunView {
                    ready: old(self)@.ready.remove(i),
                    states: old(self)@.states.update(
                        index_of(old(self)@.nodes, id),
                        Some(StateView::Running),
                    ),
                    outputs: if old(self)@.finish == Some(id) {
                        ins@
                    } else {
                        old(self)@.outputs
                    },
                    ..old(self)@
                })),
    {
        if self.ready.len() == 0 {
            if self.outputs.len() == 0 {
                return Err(WorkflowError::Unfinished(self.finish_state()));
            }
            return Ok(None);
        }
        let i = best_in(&self.ready);
        let id = self.ready[i].payload;
        proof {
            assert(has_node(self.nodes@, self.ready@[i as int].payload));
        }
        let idx = self.find(id).unwrap();
        proof {
            assert(self.nodes@[idx as int].node.wf());
        }
        let gathered_inputs = self.gather(idx);
        let ins = self.inject_failure(idx, gathered_inputs);
        let ghost before = self@;
        let ghost old_ready = self.ready@;
        self.ready.remove(i);
        self.states.set(idx, Some(ExecState::Running));
        if self.finish == Some(id) {
            self.outputs = copy_inputs(&ins);
        }
        proof {
            assert forall|k: int| 0 <= k < self.ready@.len() implies has_node(self.nodes@, #[trigger] self.ready@[k].payload) by {
                if k < i {
                    assert(self.ready@[k] == old_ready[k]);
                } else {
                    assert(self.ready@[k] == old_ready[k + 1]);
                }
            }
            assert(state_views(self.states@) =~= before.states.update(idx as int, Some(StateView::Running)));
        }
        Ok(Some((id, ins)))
    }
}

/// The nodes that output pin `o` feeds.
pub open spec fn remotes_of(v: RunView, o: OutPinId) -> Set<usize> {
    Set::new(
        |m: usize|
            exists|k: int|
                0 <= k < v.links.len() && #[trigger] v.links[k].out_pin == o && v.links[k].in_pin.node
                    == m,
    )
}

/// Whether output pin `p` of node `id` is a failure pin that feeds some node
/// that is not disabled.
pub open spec fn pin_handled(v: RunView, id: usize, p: int) -> bool {
    &&& node_at(v.nodes, id).node.produces(p) == ValueKind::Failure
    &&& exists|k: int|
        0 <= k < v.links.len() && #[trigger] v.links[k].out_pin == OutPinId {
            node: id,
            output: p as usize,
        } && !node_at(v.nodes, v.links[k].in_pin.node).disabled
}

/// The first handled failure pin of node `id`, from `p` on, below `n`.
pub open spec fn fail_pin(v: RunView, id: usize, p: int, n: int) -> Option<int>
    decreases n - p,
{
    if p >= n || p < 0 {
        None
    } else if pin_handled(v, id, p) {
        Some(p)
    } else {
        fail_pin(v, id, p + 1, n)
    }
}

/// The nodes that handle a failure of node `id`: those fed by its first
/// handled failure pin.
pub open spec fn handlers(v: RunView, id: usize) -> Set<usize> {
    match fail_pin(v, id, 0, node_at(v.nodes, id).node.output_count() as int) {
        Some(p) => remotes_of(v, OutPinId { node: id, output: p as usize }),
        None => Set::empty(),
    }
}

/// The nodes fed by an output pin of node `id` that gave nothing: a
/// placeholder, or no value at all.
pub open spec fn blocked(v: RunView, id: usize, values: Seq<FlowValue>) -> Set<usize> {
    Set::new(
        |m: usize|
            exists|p: int|
                0 <= p < node_at(v.nodes, id).node.output_count() && (p >= values.len()
                    || values[p] is Placeholder) && #[trigger] remotes_of(
                    v,
                    OutPinId { node: id, output: p as usize },
                ).contains(m),
    )
}

/// Whether node `m` moves on after node `id` ran: it is fed by `id`, and
/// after a success it is fed by a pin that gave a value and does not handle
/// failures; after a failure it handles the failure (or `id` has one output
/// only, which is then passed on either way).
pub open spec fn moving(v: RunView, id: usize, result: Result<Seq<FlowValue>, WorkflowError>, m: usize) -> bool {
    &&& successors(v.links, id).contains(m)
    &&& match result {
        Ok(values) => !blocked(v, id, values).contains(m) && !handlers(v, id).contains(m),
        Err(_) => node_at(v.nodes, id).node.output_count() == 1 || handlers(v, id).contains(m),
    }
}

/// The state of node `n` after node `id` ran, from its state `st`: a node
/// that moves on and waits stops waiting on `id`; it is ready (disabled,
/// when it is disabled) once it waits on nothing, and a select node at once.
pub open spec fn advanced(id: usize, n: RunNode, st: Option<StateView>, moves: bool) -> Option<StateView> {
    if !moves {
        st
    } else {
        match st {
            Some(StateView::Waiting(d)) => if d.remove(id) == Set::<usize>::empty() || n.node is Select {
                if n.disabled {
                    Some(StateView::Disabled)
                } else {
                    Some(StateView::Ready)
                }
            } else {
                Some(StateView::Waiting(d.remove(id)))
            },
            _ => st,
        }
    }
}

/// Whether the step makes node `n` ready.
pub open spec fn made_ready(id: usize, n: RunNode, st: Option<StateView>, moves: bool) -> bool {
    &&& moves
    &&& st matches Some(StateView::Waiting(d))
    &&& (d.remove(id) == Set::<usize>::empty() || n.node is Select)
    &&& !n.disabled
}

/// The queue entries of the nodes (among the first `n`, in order) that the
/// step makes ready.
pub open spec fn pushed(
    v: RunView,
    id: usize,
    result: Result<Seq<FlowValue>, WorkflowError>,
    mid: Seq<Option<StateView>>,
    n: int,
) -> Seq<Prioritized<usize>>
    decreases n,
{
    if n <= 0 {
        Seq::empty()
    } else {
        let rest = pushed(v, id, result, mid, n - 1);
        let node = v.nodes[n - 1];
        if made_ready(id, node, mid[n - 1], moving(v, id, result, node.id)) {
            rest.push(Prioritized { priority: node.node.rank() as usize, payload: node.id })
        } else {
            rest
        }
    }
}

/// The states after node `id` ran with `result`: its own state records the
/// result; then each node that moves on advances.
pub open spec fn after_states(v: RunView, id: usize, result: Result<Seq<FlowValue>, WorkflowError>, own: Option<StateView>) -> Seq<Option<StateView>> {
    let mid = v.states.update(index_of(v.nodes, id), own);
    Seq::new(
        v.states.len(),
        |q: int| advanced(id, v.nodes[q], mid[q], moving(v, id, result, v.nodes[q].id)),
    )
}

impl WorkflowRunner {
    /// The nodes that output pin `o` feeds.
    fn remotes(&self, o: OutPinId) -> (r: im::OrdSet<usize>)
        ensures
            id_set(r) == remotes_of(self@, o),
    {
        let mut set = ids_new();
        let mut k: usize = 0;
        while k < self.links.len()
            invariant
                k <= self.links@.len(),
                id_set(set) == Set::new(
                    |m: usize|
                        exists|q: int|
                            0 <= q < k && #[trigger] self.links@[q].out_pin == o && self.links@[q].in_pin.node
                                == m,
                ),
            decreases self.links@.len() - k,
        {
            if self.links[k].out_pin == o {
                set = ids_update(&set, self.links[k].in_pin.node);
            }
            assert(id_set(set) =~= Set::new(
                |m: usize|
                    exists|q: int|
                        0 <= q < k + 1 && #[trigger] self.links@[q].out_pin == o && self.links@[q].in_pin.node
                            == m,
            ));
            k += 1;
        }
        assert(id_set(set) =~= remotes_of(self@, o));
        set
    }

    /// Whether output pin `p` of node `idx` is a handled failure pin.
    fn handled(&self, idx: usize, p: usize) -> (r: bool)
        requires
            self.wf(),
            idx < self.nodes@.len(),
            p < self.nodes@[idx as int].node.output_count(),
        ensures
            r == pin_handled(self@, self.nodes@[idx as int].id, p as int),
    {
        let id = self.nodes[idx].id;
        proof {
            lemma_index(self.nodes@, idx as int);
        }
        if self.nodes[idx].node.out_kind(p) != ValueKind::Failure {
            return false;
        }
        let o = OutPinId { node: id, output: p };
        let mut k: usize = 0;
        while k < self.links.len()
            invariant
                self.wf(),
                idx < self.nodes@.len(),
                id == self.nodes@[idx as int].id,
                index_of(self.nodes@, id) == idx,
                o == (OutPinId { node: id, output: p }),
                self.nodes@[idx as int].node.produces(p as int) == ValueKind::Failure,
                k <= self.links@.len(),
                forall|q: int|
                    0 <= q < k && #[trigger] self.links@[q].out_pin == o ==> node_at(
                        self.nodes@,
                        self.links@[q].in_pin.node,
                    ).disabled,
            decreases self.links@.len() - k,
        {
            if self.links[k].out_pin == o {
                proof {
                    assert(link_ok(self.nodes@, self.links@[k as int]));
                }
                let j = self.find(self.links[k].in_pin.node).unwrap();
                if !self.nodes[j].disabled {
                    proof {
                        assert(self.links@[k as int].out_pin == OutPinId { node: id, output: p });
                        assert(!node_at(self.nodes@, self.links@[k as int].in_pin.node).disabled);
                    }
                    return true;
                }
            }
            k += 1;
        }
        false
    }

    /// The nodes that handle a failure of node `idx`.
    fn handler_set(&self, idx: usize) -> (r: im::OrdSet<usize>)
        requires
            self.wf(),
            idx < self.nodes@.len(),
        ensures
            id_set(r) == handlers(self@, self.nodes@[idx as int].id),
    {
        let id = self.nodes[idx].id;
        proof {
            lemma_index(self.nodes@, idx as int);
        }
        let n = self.nodes[idx].node.outputs();
        let mut p: usize = 0;
        while p < n
            invariant
                self.wf(),
                idx < self.nodes@.len(),
                id == self.nodes@[idx as int].id,
                index_of(self.nodes@, id) == idx,
                n == self.nodes@[idx as int].node.output_count(),
                p <= n,
                fail_pin(self@, id, 0, n as int) == fail_pin(self@, id, p as int, n as int),
            decreases n - p,
        {
            if self.handled(idx, p) {
                return self.remotes(OutPinId { node: id, output: p });
            }
            p += 1;
        }
        ids_new()
    }

    /// The nodes fed by an output pin of node `idx` that gave nothing.
    fn blocked_set(&self, idx: usize, values: &Vec<FlowValue>) -> (r: im::OrdSet<usize>)
        requires
            self.wf(),
            idx < self.nodes@.len(),
        ensures
            id_set(r) == blocked(self@, self.nodes@[idx as int].id, values@),
    {
        let id = self.nodes[idx].id;
        proof {
            lemma_index(self.nodes@, idx as int);
        }
        let n = self.nodes[idx].node.outputs();
        let ghost gave_nothing = |p: int| 0 <= p < n && (p >= values@.len() || values@[p] is Placeholder);
        let mut set = ids_new();
        let mut k: usize = 0;
        while k < self.links.len()
            invariant
                k <= self.links@.len(),
                gave_nothing == (|p: int| 0 <= p < n && (p >= values@.len() || values@[p] is Placeholder)),
                id_set(set) == Set::new(
                    |m: usize|
                        exists|q: int|
                            0 <= q < k && #[trigger] self.links@[q].out_pin.node == id && gave_nothing(
                                self.links@[q].out_pin.output as int,
                            ) && self.links@[q].in_pin.node == m,
                ),
            decreases self.links@.len() - k,
        {
            let w = self.links[k];
            if w.out_pin.node == id && w.out_pin.output < n && (w.out_pin.output >= values.len()
                || values[w.out_pin.output].is_placeholder()) {
                set = ids_update(&set, w.in_pin.node);
            }
            assert(id_set(set) =~= Set::new(
                |m: usize|
                    exists|q: int|
                        0 <= q < k + 1 && #[trigger] self.links@[q].out_pin.node == id && gave_nothing(
                            self.links@[q].out_pin.output as int,
                        ) && self.links@[q].in_pin.node == m,
            ));
            k += 1;
        }
        proof {
            assert forall|m: usize| id_set(set).contains(m) == blocked(self@, id, values@).contains(m) by {
                if id_set(set).contains(m) {
                    let q = choose|q: int|
                        0 <= q < self.links@.len() && #[trigger] self.links@[q].out_pin.node == id
                            && gave_nothing(self.links@[q].out_pin.output as int) && self.links@[q].in_pin.node == m;
                    let p = self.links@[q].out_pin.output as int;
                    assert(self.links@[q].out_pin == OutPinId { node: id, output: p as usize });
                    assert(remotes_of(self@, OutPinId { node: id, output: p as usize }).contains(m));
                }
                if blocked(self@, id, values@).contains(m) {
                    let p = choose|p: int|
                        0 <= p < n && (p >= values@.len() || values@[p] is Placeholder) && #[trigger] remotes_of(
                            self@,
                            OutPinId { node: id, output: p as usize },
                        ).contains(m);
                    let q = choose|q: int|
                        0 <= q < self.links@.len() && #[trigger] self.links@[q].out_pin == OutPinId {
                            node: id,
                            output: p as usize,
                        } && self.links@[q].in_pin.node == m;
                    assert(self.links@[q].out_pin.node == id);
                }
            }
            assert(id_set(set) =~= blocked(self@, id, values@));
        }
        set
    }

    /// Whether node `m` is fed by node `id`.
    fn feeds(&self, id: usize, m: usize) -> (r: bool)
        ensures
            r == successors(self@.links, id).contains(m),
    {
        let mut k: usize = 0;
        while k < self.links.len()
            invariant
                k <= self.links@.len(),
                forall|q: int|
                    0 <= q < k ==> !(#[trigger] self.links@[q].out_pin.node == id && self.links@[q].in_pin.node == m),
            decreases self.links@.len() - k,
        {
            if self.links[k].out_pin.node == id && self.links[k].in_pin.node == m {
                return true;
            }
            k += 1;
        }
        false
    }
}

/// The view of a node's result.
pub open spec fn result_view(result: Result<Vec<FlowValue>, WorkflowError>) -> Result<Seq<FlowValue>, WorkflowError> {
    match result {
        Ok(v) => Ok(v@),
        Err(e) => Err(e),
    }
}

/// Whether a failure ends the run: it reports missing or wrong inputs, or no
/// node handles it.
pub open spec fn fatal(v: RunView, id: usize, e: WorkflowError) -> bool {
    e is Required || handlers(v, id) == Set::<usize>::empty()
}

/// Whether a completion can move a node on from this state: it has none, or
/// it is waiting, disabled or done. A node that is ready, running or failed
/// cannot be moved on.
pub open spec fn settled(st: Option<StateView>) -> bool {
    match st {
        None => true,
        Some(StateView::Waiting(_)) => true,
        Some(StateView::Disabled) => true,
        Some(StateView::Done(_)) => true,
        _ => false,
    }
}

/// Whether every node that the completion of `id` moves on is settled, the
/// node itself being in state `own`.
pub open spec fn successors_settled(
    v: RunView,
    id: usize,
    result: Result<Seq<FlowValue>, WorkflowError>,
    own: Option<StateView>,
) -> bool {
    forall|q: int|
        0 <= q < v.nodes.len() && moving(v, id, result, #[trigger] v.nodes[q].id) ==> settled(
            v.states.update(index_of(v.nodes, id), own)[q],
        )
}

/// Whether the completion of `id` with `result` is defined: it ends the run,
/// or every node it moves on is settled.
pub open spec fn completion_defined(v: RunView, id: usize, result: Result<Seq<FlowValue>, WorkflowError>) -> bool {
    match result {
        Ok(values) => successors_settled(v, id, result, Some(StateView::Done(values))),
        Err(e) => fatal(v, id, e) || successors_settled(v, id, result, Some(StateView::Failed(Arc::new(e)))),
    }
}

impl WorkflowRunner {
    /// Whether completing node `id` with `result` is defined (see
    /// [`completion_defined`]).
    pub fn can_complete(&self, id: usize, result: &Result<Vec<FlowValue>, WorkflowError>) -> (r: bool)
        requires
            self.wf(),
            has_node(self@.nodes, id),
        ensures
            r == completion_defined(self@, id, result_view(*result)),
    {
        let ghost v = self@;
        let ghost rv = result_view(*result);
        let idx = self.find(id).unwrap();
        proof {
            assert(self.nodes@[idx as int].node.wf());
        }
        let num_outs = self.nodes[idx].node.outputs();
        let handler_ids = self.handler_set(idx);
        let succeeded: bool;
        let mut blocked_ids = ids_new();
        match result {
            Ok(values) => {
                blocked_ids = self.blocked_set(idx, values);
                succeeded = true;
            },
            Err(err) => {
                let fatal_error = match err {
                    WorkflowError::Required(_) => true,
                    _ => false,
                } || ids_is_empty(&handler_ids);
                if fatal_error {
                    return true;
                }
                succeeded = false;
            },
        }
        let ghost own = match rv {
            Ok(values) => Some(StateView::Done(values)),
            Err(e) => Some(StateView::Failed(Arc::new(e))),
        };
        let ghost mid = v.states.update(index_of(v.nodes, id), own);
        proof {
            assert(index_of(v.nodes, id) == idx);
        }
        let mut q: usize = 0;
        while q < self.nodes.len()
            invariant
                0 <= q <= self.nodes@.len(),
                self@ == v,
                self.wf(),
                idx < self.nodes@.len(),
                self.nodes@[idx as int].id == id,
                index_of(v.nodes, id) == idx,
                mid == v.states.update(idx as int, own),
                own == match rv {
                    Ok(values) => Some(StateView::Done(values)),
                    Err(e) => Some(StateView::Failed(Arc::new(e))),
                },
                rv == result_view(*result),
                succeeded == (rv is Ok),
                !succeeded ==> !fatal(v, id, rv->Err_0),
                id_set(handler_ids) == handlers(v, id),
                succeeded ==> id_set(blocked_ids) == blocked(v, id, rv->Ok_0),
                num_outs == node_at(v.nodes, id).node.output_count(),
                forall|j: int| 0 <= j < q && moving(v, id, rv, #[trigger] v.nodes[j].id) ==> settled(mid[j]),
            decreases self.nodes@.len() - q,
        {
            let m = self.nodes[q].id;
            let fed = self.feeds(id, m);
            let mv = fed && if succeeded {
                !ids_contains(&blocked_ids, m) && !ids_contains(&handler_ids, m)
            } else {
                num_outs == 1 || ids_contains(&handler_ids, m)
            };
            proof {
                assert(mv == moving(v, id, rv, m));
                assert(self.nodes@[q as int] == v.nodes[q as int]);
            }
            if mv {
                let ok = if q == idx {
                    succeeded
                } else {
                    match &self.states[q] {
                        None => true,
                        Some(ExecState::Waiting(_)) => true,
                        Some(ExecState::Disabled) => true,
                        Some(ExecState::Done(_)) => true,
                        _ => false,
                    }
                };
                proof {
                    if q != idx {
                        assert(mid[q as int] == v.states[q as int]);
                    }
                    assert(ok == settled(mid[q as int]));
                }
                if !ok {
                    proof {
                        assert(moving(v, id, rv, v.nodes[q as int].id) && !settled(mid[q as int]));
                    }
                    return false;
                }
            }
            q += 1;
        }
        true
    }

    /// Records the result of node `id` and moves on the nodes it feeds. A
    /// success records the outputs; each node fed by a pin that gave a value
    /// (and not handling failures) stops waiting on `id`. A failure records
    /// the error; it ends the run when it reports missing or wrong inputs or
    /// when nothing handles it, else the handlers (or, for a node with a single
    /// output, all the nodes it feeds) stop waiting on `id`. A node that waits
    /// on nothing more, and a select node at once, becomes ready (disabled,
    /// when it is disabled) and joins the queue.
    pub fn complete(&mut self, id: usize, result: Result<Vec<FlowValue>, WorkflowError>) -> (r: Result<
        (),
        Arc<WorkflowError>,
    >)
        requires
            old(self).wf(),
            has_node(old(self)@.nodes, id),
            result matches Ok(values) ==> values@.len() <= node_at(old(self)@.nodes, id).node.output_count(),
            completion_defined(old(self)@, id, result_view(result)),
        ensures
            final(self).wf(),
            match result {
                Ok(values) => r is Ok && final(self)@ == (RunView {
                    states: after_states(
                        old(self)@,
                        id,
                        result_view(result),
                        Some(StateView::Done(values@)),
                    ),
                    ready: old(self)@.ready + pushed(
                        old(self)@,
                        id,
                        result_view(result),
                        old(self)@.states.update(
                            index_of(old(self)@.nodes, id),
                            Some(StateView::Done(values@)),
                        ),
                        old(self)@.nodes.len() as int,
                    ),
                    ..old(self)@
                }),
                Err(e) => final(self)@.states[index_of(old(self)@.nodes, id)] matches Some(
                    StateView::Failed(a),
                ) && *a == e && if fatal(old(self)@, id, e) {
                    r matches Err(a2) && *a2 == e && final(self)@ == (RunView {
                        states: old(self)@.states.update(
                            index_of(old(self)@.nodes, id),
                            final(self)@.states[index_of(old(self)@.nodes, id)],
                        ),
                        ..old(self)@
                    })
                } else {
                    r is Ok && final(self)@ == (RunView {
                        states: after_states(
                            old(self)@,
                            id,
                            result_view(result),
                            final(self)@.states[index_of(old(self)@.nodes, id)],
                        ),
                        ready: old(self)@.ready + pushed(
                            old(self)@,
                            id,
                            result_view(result),
                            old(self)@.states.update(
                                index_of(old(self)@.nodes, id),
                                final(self)@.states[index_of(old(self)@.nodes, id)],
                            ),
                            old(self)@.nodes.len() as int,
                        ),
                        ..old(self)@
                    })
                },
            },
    {
        let ghost v = self@;
        let ghost rv = result_view(result);
        let idx = self.find(id).unwrap();
        proof {
            assert(self.nodes@[idx as int].node.wf());
        }
        let num_outs = self.nodes[idx].node.outputs();
        let handler_ids = self.handler_set(idx);
        let succeeded: bool;
        let mut blocked_ids = ids_new();
        match result {
            Ok(values) => {
                blocked_ids = self.blocked_set(idx, &values);
                self.states.set(idx, Some(ExecState::Done(values)));
                succeeded = true;
            },
            Err(err) => {
                let e = Arc::new(err);
                let fatal_error = match &*e {
                    WorkflowError::Required(_) => true,
                    _ => false,
                } || ids_is_empty(&handler_ids);
                self.states.set(idx, Some(ExecState::Failed(e.clone())));
                if fatal_error {
                    proof {
                        assert(state_views(self.states@) =~= v.states.update(idx as int, state_views(self.states@)[idx as int]));
                    }
                    return Err(e);
                }
                succeeded = false;
            },
        }
        let ghost mid = state_views(self.states@);
        proof {
            assert(mid =~= v.states.update(idx as int, mid[idx as int]));
        }
        let mut q: usize = 0;
        while q < self.nodes.len()
            invariant
                0 <= q <= self.nodes@.len(),
                self.nodes@ == v.nodes,
                self.links@ == v.links,
                self.start == v.start,
                self.finish == v.finish,
                self.inputs@ == v.inputs,
                self.outputs@ == v.outputs,
                self.states@.len() == v.nodes.len(),
                ids_distinct(v.nodes),
                all_wf(v.nodes),
                forall|k: int| 0 <= k < self.links@.len() ==> link_ok(self.nodes@, #[trigger] self.links@[k]),
                mid.len() == v.nodes.len(),
                forall|j: int| 0 <= j < q ==> #[trigger] state_views(self.states@)[j] == advanced(
                    id,
                    v.nodes[j],
                    mid[j],
                    moving(v, id, rv, v.nodes[j].id),
                ),
                forall|j: int| q <= j < v.nodes.len() ==> #[trigger] state_views(self.states@)[j] == mid[j],
                self.ready@ == v.ready + pushed(v, id, rv, mid, q as int),
                forall|k: int| 0 <= k < self.ready@.len() ==> has_node(self.nodes@, #[trigger] self.ready@[k].payload),
                id_set(handler_ids) == handlers(v, id),
                succeeded == (rv is Ok),
                succeeded ==> id_set(blocked_ids) == blocked(v, id, rv->Ok_0),
                num_outs == node_at(v.nodes, id).node.output_count(),
            decreases self.nodes@.len() - q,
        {
            let m = self.nodes[q].id;
            let fed = self.feeds(id, m);
            let mv = fed && if succeeded {
                !ids_contains(&blocked_ids, m) && !ids_contains(&handler_ids, m)
            } else {
                num_outs == 1 || ids_contains(&handler_ids, m)
            };
            proof {
                assert(mv == moving(v, id, rv, m));
                assert(self.nodes@[q as int] == v.nodes[q as int]);
            }
            let ghost st = state_views(self.states@)[q as int];
            let ghost ready_before = self.ready@;
            let ghost states_before = self.states@;
            assert(forall|j: int| 0 <= j < q ==> #[trigger] state_views(states_before)[j] == advanced(
                id,
                v.nodes[j],
                mid[j],
                moving(v, id, rv, v.nodes[j].id),
            ));
            if mv {
                let next_state: Option<Option<ExecState>> = match &self.states[q] {
                    Some(ExecState::Waiting(deps)) => {
                        let rest = ids_without(deps, id);
                        if ids_is_empty(&rest) || self.nodes[q].node.is_eager() {
                            if self.nodes[q].disabled {
                                Some(Some(ExecState::Disabled))
                            } else {
                                let p = Prioritized::new(m).priority(self.nodes[q].node.priority());
                                self.ready.push(p);
                                Some(Some(ExecState::Ready))
                            }
                        } else {
                            Some(Some(ExecState::Waiting(rest)))
                        }
                    },
                    _ => None,
                };
                match next_state {
                    Some(ns) => {
                        self.states.set(q, ns);
                    },
                    None => {},
                }
            }
            proof {
                assert forall|j: int| q < j < v.nodes.len() implies #[trigger] state_views(self.states@)[j] == mid[j] by {
                    assert(self.states@[j] == states_before[j]);
                    assert(state_views(states_before)[j] == mid[j]);
                }
                assert forall|j: int| 0 <= j < q implies #[trigger] state_views(self.states@)[j] == advanced(
                    id,
                    v.nodes[j],
                    mid[j],
                    moving(v, id, rv, v.nodes[j].id),
                ) by {
                    assert(self.states@[j] == states_before[j]);
                    assert(state_views(self.states@)[j] == state_views(states_before)[j]);
                }
                assert(self.ready@ == v.ready + pushed(v, id, rv, mid, q as int + 1)) by {
                    if made_ready(id, v.nodes[q as int], mid[q as int], mv) {
                        assert(self.ready@ =~= ready_before.push(Prioritized {
                            priority: v.nodes[q as int].node.rank() as usize,
                            payload: m,
                        }));
                    }
                }
                assert forall|k: int| 0 <= k < self.ready@.len() implies has_node(self.nodes@, #[trigger] self.ready@[k].payload) by {
                    if k >= ready_before.len() {
                        assert(self.nodes@[q as int].id == self.ready@[k].payload);
                    } else {
                        assert(self.ready@[k] == ready_before[k]);
                    }
                }
            }
            q += 1;
        }
        proof {
            assert(state_views(self.states@) =~= after_states(v, id, rv, mid[idx as int]));
        }
        Ok(())
    }
}

impl WorkflowRunner {
    /// What the finish node received, once it ran.
    pub fn outputs(&self) -> (r: Vec<Option<FlowValue>>)
        ensures
            r@ == self@.outputs,
    {
        copy_inputs(&self.outputs)
    }

    /// The state of node `id`, if it has one.
    pub fn state_of(&self, id: usize) -> (r: Option<&ExecState>)
        requires
            self.wf(),
        ensures
            r matches Some(st) ==> has_node(self@.nodes, id) && self@.states[index_of(self@.nodes, id)]
                == Some(st@),
            r is None ==> !has_node(self@.nodes, id) || self@.states[index_of(self@.nodes, id)] is None,
    {
        match self.find(id) {
            Some(j) => {
                proof {
                    assert(self@.states[j as int] == match self.states@[j as int] {
                        Some(st) => Some(st@),
                        None => None,
                    });
                }
                match &self.states[j] {
                    Some(st) => Some(st),
                    None => None,
                }
            },
            None => None,
        }
    }

    /// Whether no node is ready to run.
    pub fn is_idle(&self) -> (r: bool)
        ensures
            r == (self@.ready.len() == 0),
    {
        self.ready.len() == 0
    }

    /// The session that the run leaves behind, from what the finish node
    /// received (see [`Finish::execute`]).
    pub fn root_finish(&self, session: &ChatHistory) -> (r: Result<Option<ChatHistory>, WorkflowError>)
        requires
            self@.outputs.len() >= 1,
        ensures
            match self@.outputs[0] {
                Some(FlowValue::Chat(chat)) => if session@.store.dom().subset_of(chat@.store.dom()) {
                    r matches Ok(Some(h)) && h@ == unbased(chat@)
                } else {
                    r matches Err(WorkflowError::Conversion(m)) && m@ == unrelated_text()
                },
                _ => r matches Ok(None),
            },
    {
        let first = copy_inputs(&self.outputs);
        let mut one: Vec<Option<FlowValue>> = Vec::new();
        let v = match &first[0] {
            Some(x) => Some(x.duplicate()),
            None => None,
        };
        one.push(v);
        assert(one@ =~= self@.outputs.take(1));
        Finish {}.execute(session, &one)
    }
}

/// A completion queues only nodes that are not disabled.
pub proof fn law_disabled_never_queued(
    v: RunView,
    id: usize,
    result: Result<Seq<FlowValue>, WorkflowError>,
    mid: Seq<Option<StateView>>,
    n: int,
)
    requires
        0 <= n <= v.nodes.len(),
    ensures
        forall|k: int|
            0 <= k < pushed(v, id, result, mid, n).len() ==> exists|q: int|
                0 <= q < n && v.nodes[q].id == (#[trigger] pushed(v, id, result, mid, n)[k]).payload
                    && !v.nodes[q].disabled,
    decreases n,
{
    if n > 0 {
        law_disabled_never_queued(v, id, result, mid, n - 1);
        let rest = pushed(v, id, result, mid, n - 1);
        let all = pushed(v, id, result, mid, n);
        assert forall|k: int| 0 <= k < all.len() implies exists|q: int|
            0 <= q < n && v.nodes[q].id == (#[trigger] all[k]).payload && !v.nodes[q].disabled by {
            if k < rest.len() {
                assert(all[k] == rest[k]);
                let q = choose|q: int| 0 <= q < n - 1 && v.nodes[q].id == (#[trigger] rest[k]).payload && !v.nodes[q].disabled;
                assert(0 <= q < n && v.nodes[q].id == all[k].payload && !v.nodes[q].disabled);
            } else {
                assert(v.nodes[n - 1].id == all[k].payload && !v.nodes[n - 1].disabled);
            }
        }
    }
}

/// A run starts with only nodes that are not disabled in its queue.
pub proof fn law_initial_queue_enabled(nodes: Seq<RunNode>, links: Seq<Wire>)
    ensures
        forall|k: int|
            0 <= k < initial_ready(nodes, links).len() ==> exists|q: int|
                0 <= q < nodes.len() && nodes[q].id == (#[trigger] initial_ready(nodes, links)[k]).payload
                    && !nodes[q].disabled && !has_deps(links, nodes[q].id),
    decreases nodes.len(),
{
    if nodes.len() > 0 {
        let rest_nodes = nodes.drop_last();
        law_initial_queue_enabled(rest_nodes, links);
        let rest = initial_ready(rest_nodes, links);
        let all = initial_ready(nodes, links);
        assert forall|k: int| 0 <= k < all.len() implies exists|q: int|
            0 <= q < nodes.len() && nodes[q].id == (#[trigger] all[k]).payload && !nodes[q].disabled
                && !has_deps(links, nodes[q].id) by {
            if k < rest.len() {
                assert(all[k] == rest[k]);
                let q = choose|q: int|
                    0 <= q < rest_nodes.len() && rest_nodes[q].id == (#[trigger] rest[k]).payload
                        && !rest_nodes[q].disabled && !has_deps(links, rest_nodes[q].id);
                assert(rest_nodes[q] == nodes[q]);
            } else {
                let q = nodes.len() - 1;
                assert(nodes[q].id == all[k].payload);
            }
        }
    }
}

/// A completion makes a node ready only from waiting: a node that was not
/// waiting keeps its state.
pub proof fn law_ready_only_from_waiting(
    v: RunView,
    id: usize,
    result: Result<Seq<FlowValue>, WorkflowError>,
    own: Option<StateView>,
    q: int,
)
    requires
        0 <= q < v.states.len(),
        q < v.nodes.len(),
    ensures
        ({
            let mid = v.states.update(index_of(v.nodes, id), own);
            !(mid[q] is Some && mid[q]->Some_0 is Waiting) ==> after_states(v, id, result, own)[q] == mid[q]
        }),
{
}

/// A node that does not select waits on every node it depends on: when it
/// moves on it becomes ready only once it waits on nothing more.
pub proof fn law_waits_for_all(id: usize, n: RunNode, d: Set<usize>, moves: bool)
    requires
        !(n.node is Select),
        d.remove(id) != Set::<usize>::empty(),
    ensures
        advanced(id, n, Some(StateView::Waiting(d)), moves) == if moves {
            Some(StateView::Waiting(d.remove(id)))
        } else {
            Some(StateView::Waiting(d))
        },
{
}

/// A select node that moves on is ready at once, whatever else it waits on
/// (unless it is disabled).
pub proof fn law_select_is_eager(id: usize, n: RunNode, d: Set<usize>)
    requires
        n.node is Select,
        !n.disabled,
    ensures
        advanced(id, n, Some(StateView::Waiting(d)), true) == Some(StateView::Ready),
        made_ready(id, n, Some(StateView::Waiting(d)), true),
{
}

/// The node that runs next has a priority at least as high as every other
/// ready node: a node of higher priority never waits behind one of lower
/// priority, and of equal priorities the higher id goes first.
pub proof fn law_next_is_highest_priority(q: Seq<Prioritized<usize>>, i: int)
    requires
        is_best(q, i),
    ensures
        forall|k: int| 0 <= k < q.len() ==> #[trigger] q[k].priority <= q[i].priority,
        forall|k: int|
            0 <= k < q.len() && #[trigger] q[k].priority == q[i].priority ==> q[k].payload <= q[i].payload,
{
}

} // verus!

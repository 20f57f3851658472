//! The shadow of a workflow graph: its nodes (by id and role), the wires that
//! connect output pins to input pins, and the nodes that are disabled.
//!
//! Every edit builds a new graph and leaves the old one untouched; the
//! collections share structure, so copies are cheap and can be compared by
//! pointer.
use std::sync::Arc;
use vstd::prelude::*;

use crate::collections::{
    id_set, ids_contains, ids_new, ids_ptr_eq, ids_update, ids_without, node_map, nodes_get,
    nodes_new, nodes_pairs, nodes_ptr_eq, nodes_update, nodes_without, wire_set, wires_contains,
    wires_items, wires_new, wires_ptr_eq, wires_update, wires_without,
};
use crate::chat::same_text;
use crate::ids::fresh_id;
use crate::utils::{ImmutableMapExt, ImmutableSetExt};

verus! {

/// A wire as (output node, output pin, input node, input pin); the order of
/// the tuple is the order of wires.
pub type WireKey = (usize, usize, usize, usize);

/// An output pin of a node.
#[derive(Debug, Clone, Copy, PartialEq, Eq, Hash, PartialOrd, Ord, Structural)]
pub struct OutPinId {
    pub node: usize,
    pub output: usize,
}

/// An input pin of a node.
#[derive(Debug, Clone, Copy, PartialEq, Eq, Hash, PartialOrd, Ord, Structural)]
pub struct InPinId {
    pub node: usize,
    pub input: usize,
}

/// A connection from an output pin to an input pin.
#[derive(Debug, Clone, Copy, PartialEq, Eq, Hash, PartialOrd, Ord, Structural)]
pub struct Wire {
    pub out_pin: OutPinId,
    pub in_pin: InPinId,
}

impl Wire {
    /// The wire as a tuple.
    pub open spec fn key_of(self) -> WireKey {
        (self.out_pin.node, self.out_pin.output, self.in_pin.node, self.in_pin.input)
    }

    /// The wire between two pins.
    pub fn from_pins(out_pin: OutPinId, in_pin: InPinId) -> (r: Wire)
        ensures
            r.out_pin == out_pin,
            r.in_pin == in_pin,
    {
        Wire { out_pin, in_pin }
    }

    /// The wire as a tuple.
    pub fn key(&self) -> (r: WireKey)
        ensures
            r == self.key_of(),
    {
        (self.out_pin.node, self.out_pin.output, self.in_pin.node, self.in_pin.input)
    }

    /// The wire that a tuple stands for.
    pub fn from_key(k: WireKey) -> (r: Wire)
        ensures
            r.key_of() == k,
    {
        Wire {
            out_pin: OutPinId { node: k.0, output: k.1 },
            in_pin: InPinId { node: k.2, input: k.3 },
        }
    }
}

/// The id of a graph.
#[derive(Debug, Clone, Copy, PartialEq, Eq, Hash, PartialOrd, Ord, Structural)]
pub struct GraphId(pub u128);

impl GraphId {
    /// A fresh random id.
    pub fn new() -> GraphId {
        GraphId(fresh_id())
    }
}

/// What a node is to the graph: its entry, its exit, or any other node.
#[derive(Debug, Clone, Copy, PartialEq, Eq, Hash, Structural)]
pub enum NodeRole {
    Start,
    Finish,
    Other,
}

/// The graph.
#[derive(Debug, Clone)]
pub struct ShadowGraph {
    pub uuid: GraphId,
    pub nodes: im::OrdMap<usize, NodeRole>,
    pub wires: im::OrdSet<WireKey>,
    pub disabled: im::OrdSet<usize>,
    pub description: Arc<String>,
    pub schema: Arc<String>,
    pub start: Option<usize>,
    pub finish: Option<usize>,
}

/// The mathematical value of a [`ShadowGraph`].
pub struct GraphView {
    pub uuid: u128,
    pub nodes: Map<usize, NodeRole>,
    pub wires: Set<WireKey>,
    pub disabled: Set<usize>,
    pub description: Seq<char>,
    pub schema: Seq<char>,
    pub start: Option<usize>,
    pub finish: Option<usize>,
}

impl View for ShadowGraph {
    type V = GraphView;

    open spec fn view(&self) -> GraphView {
        GraphView {
            uuid: self.uuid.0,
            nodes: node_map(self.nodes),
            wires: wire_set(self.wires),
            disabled: id_set(self.disabled),
            description: self.description@,
            schema: self.schema@,
            start: self.start,
            finish: self.finish,
        }
    }
}

/// A rule that edits one wire: `Some` with the wire that takes its place, or
/// `None` to drop it.
pub type WireRule = spec_fn(WireKey) -> Option<WireKey>;

/// The wires after applying a rule to each of them.
pub open spec fn edited(wires: Set<WireKey>, rule: WireRule) -> Set<WireKey> {
    Set::new(|k: WireKey| exists|k0: WireKey| wires.contains(k0) && rule(k0) == Some(k))
}

/// Drops the wires that touch `node`.
pub open spec fn drop_io_rule(node: usize) -> WireRule {
    |k: WireKey|
        if k.2 != node && k.0 != node {
            Some(k)
        } else {
            None
        }
}

/// Drops the wires into input pin `pin`.
pub open spec fn drop_inputs_rule(pin: InPinId) -> WireRule {
    |k: WireKey|
        if !(k.2 == pin.node && k.3 == pin.input) {
            Some(k)
        } else {
            None
        }
}

/// Drops the wires out of output pin `pin`.
pub open spec fn drop_outputs_rule(pin: OutPinId) -> WireRule {
    |k: WireKey|
        if !(k.0 == pin.node && k.1 == pin.output) {
            Some(k)
        } else {
            None
        }
}

/// Drops the wires into `pin` and moves the wires into the later input pins
/// of the same node one pin down.
pub open spec fn shift_inputs_rule(pin: InPinId) -> WireRule {
    |k: WireKey|
        if k.2 == pin.node && k.3 == pin.input {
            None
        } else if k.2 != pin.node || k.3 < pin.input {
            Some(k)
        } else {
            Some((k.0, k.1, pin.node, (k.3 - 1) as usize))
        }
}

/// Drops the wires out of `pin` and moves the wires out of the later output
/// pins of the same node one pin down.
pub open spec fn shift_outputs_rule(pin: OutPinId) -> WireRule {
    |k: WireKey|
        if k.0 == pin.node && k.1 == pin.output {
            None
        } else if k.0 != pin.node || k.1 < pin.output {
            Some(k)
        } else {
            Some((pin.node, (k.1 - 1) as usize, k.2, k.3))
        }
}

/// Exchanges the wires into input pins `a` and `b`.
pub open spec fn swap_inputs_rule(a: InPinId, b: InPinId) -> WireRule {
    |k: WireKey|
        if k.2 == a.node && k.3 == a.input {
            Some((k.0, k.1, b.node, b.input))
        } else if k.2 == b.node && k.3 == b.input {
            Some((k.0, k.1, a.node, a.input))
        } else {
            Some(k)
        }
}

/// Exchanges the wires out of output pins `a` and `b`.
pub open spec fn swap_outputs_rule(a: OutPinId, b: OutPinId) -> WireRule {
    |k: WireKey|
        if k.0 == a.node && k.1 == a.output {
            Some((b.node, b.output, k.2, k.3))
        } else if k.0 == b.node && k.1 == b.output {
            Some((a.node, a.output, k.2, k.3))
        } else {
            Some(k)
        }
}

/// Keeps the wires whose both ends are nodes of `nodes`.
pub open spec fn keep_rule(nodes: Set<usize>) -> WireRule {
    |k: WireKey|
        if nodes.contains(k.0) && nodes.contains(k.2) {
            Some(k)
        } else {
            None
        }
}

/// An edit of the wires of a graph.
pub enum WireEdit {
    DropIo(usize),
    DropInputs(InPinId),
    DropOutputs(OutPinId),
    ShiftInputs(InPinId),
    ShiftOutputs(OutPinId),
    SwapInputs(InPinId, InPinId),
    SwapOutputs(OutPinId, OutPinId),
}

/// The rule of an edit.
pub open spec fn edit_rule(e: WireEdit) -> WireRule {
    match e {
        WireEdit::DropIo(n) => drop_io_rule(n),
        WireEdit::DropInputs(p) => drop_inputs_rule(p),
        WireEdit::DropOutputs(p) => drop_outputs_rule(p),
        WireEdit::ShiftInputs(p) => shift_inputs_rule(p),
        WireEdit::ShiftOutputs(p) => shift_outputs_rule(p),
        WireEdit::SwapInputs(a, b) => swap_inputs_rule(a, b),
        WireEdit::SwapOutputs(a, b) => swap_outputs_rule(a, b),
    }
}

/// Applies an edit to one wire.
fn apply_edit(e: &WireEdit, k: WireKey) -> (r: Option<WireKey>)
    ensures
        r == (edit_rule(*e))(k),
{
    match e {
        WireEdit::DropIo(node) => {
            if k.2 != *node && k.0 != *node {
                Some(k)
            } else {
                None
            }
        },
        WireEdit::DropInputs(pin) => {
            if !(k.2 == pin.node && k.3 == pin.input) {
                Some(k)
            } else {
                None
            }
        },
        WireEdit::DropOutputs(pin) => {
            if !(k.0 == pin.node && k.1 == pin.output) {
                Some(k)
            } else {
                None
            }
        },
        WireEdit::ShiftInputs(pin) => {
            if k.2 == pin.node && k.3 == pin.input {
                None
            } else if k.2 != pin.node || k.3 < pin.input {
                Some(k)
            } else {
                Some((k.0, k.1, pin.node, k.3 - 1))
            }
        },
        WireEdit::ShiftOutputs(pin) => {
            if k.0 == pin.node && k.1 == pin.output {
                None
            } else if k.0 != pin.node || k.1 < pin.output {
                Some(k)
            } else {
                Some((pin.node, k.1 - 1, k.2, k.3))
            }
        },
        WireEdit::SwapInputs(a, b) => {
            if k.2 == a.node && k.3 == a.input {
                Some((k.0, k.1, b.node, b.input))
            } else if k.2 == b.node && k.3 == b.input {
                Some((k.0, k.1, a.node, a.input))
            } else {
                Some(k)
            }
        },
        WireEdit::SwapOutputs(a, b) => {
            if k.0 == a.node && k.1 == a.output {
                Some((b.node, b.output, k.2, k.3))
            } else if k.0 == b.node && k.1 == b.output {
                Some((a.node, a.output, k.2, k.3))
            } else {
                Some(k)
            }
        },
    }
}

/// The set of wires after applying an edit to each wire of `wires`.
fn edit_wires(wires: &im::OrdSet<WireKey>, e: &WireEdit) -> (r: im::OrdSet<WireKey>)
    ensures
        wire_set(r) == edited(wire_set(*wires), edit_rule(*e)),
{
    let items = wires_items(wires);
    let ghost rule = edit_rule(*e);
    let mut out = wires_new();
    let mut i: usize = 0;
    while i < items.len()
        invariant
            i <= items@.len(),
            items@.to_set() == wire_set(*wires),
            rule == edit_rule(*e),
            wire_set(out) == Set::new(
                |k: WireKey| exists|j: int| 0 <= j < i && rule(items@[j]) == Some(k),
            ),
        decreases items@.len() - i,
    {
        let ghost before = wire_set(out);
        match apply_edit(e, items[i]) {
            Some(k) => {
                out = wires_update(&out, k);
            },
            None => {},
        }
        i += 1;
        assert(wire_set(out) =~= Set::new(
            |k: WireKey| exists|j: int| 0 <= j < i && rule(items@[j]) == Some(k),
        )) by {
            assert forall|k: WireKey| wire_set(out).contains(k) implies exists|j: int|
                0 <= j < i && rule(items@[j]) == Some(k) by {
                if before.contains(k) {
                    let j = choose|j: int| 0 <= j < i - 1 && rule(items@[j]) == Some(k);
                    assert(0 <= j < i && rule(items@[j]) == Some(k));
                } else {
                    assert(rule(items@[i - 1]) == Some(k));
                }
            }
            assert forall|k: WireKey| (exists|j: int| 0 <= j < i && rule(items@[j]) == Some(k)) implies wire_set(out).contains(k) by {
                let j = choose|j: int| 0 <= j < i && rule(items@[j]) == Some(k);
                if j < i - 1 {
                    assert(before.contains(k));
                }
            }
        }
    }
    assert(wire_set(out) =~= edited(wire_set(*wires), rule)) by {
        assert forall|k: WireKey| wire_set(out).contains(k) implies edited(wire_set(*wires), rule).contains(k) by {
            let j = choose|j: int| 0 <= j < items@.len() && rule(items@[j]) == Some(k);
            assert(items@.to_set().contains(items@[j]));
        }
        assert forall|k: WireKey| edited(wire_set(*wires), rule).contains(k) implies wire_set(out).contains(k) by {
            let k0 = choose|k0: WireKey| wire_set(*wires).contains(k0) && rule(k0) == Some(k);
            assert(items@.to_set().contains(k0));
            let j = choose|j: int| 0 <= j < items@.len() && items@[j] == k0;
        }
    }
    out
}

/// The first id (in ascending order) of a node with the given role.
pub open spec fn first_with_role(nodes: Map<usize, NodeRole>, role: NodeRole) -> Option<usize> {
    if exists|k: usize| nodes.contains_key(k) && nodes[k] == role {
        Some(
            choose|k: usize|
                nodes.contains_key(k) && nodes[k] == role && forall|j: usize|
                    nodes.contains_key(j) && nodes[j] == role ==> k <= j,
        )
    } else {
        None
    }
}

/// The node of a role: the one the graph names for it if that node has the
/// role, else the first node with the role.
pub open spec fn node_with_role(
    nodes: Map<usize, NodeRole>,
    named: Option<usize>,
    role: NodeRole,
) -> Option<usize> {
    if named matches Some(id) && nodes.contains_key(id) && nodes[id] == role {
        named
    } else {
        first_with_role(nodes, role)
    }
}

/// The first node with a role, found by going through the nodes in order.
fn find_role(nodes: &im::OrdMap<usize, NodeRole>, role: NodeRole) -> (r: Option<usize>)
    ensures
        r == first_with_role(node_map(*nodes), role),
{
    let pairs = nodes_pairs(nodes);
    let ghost m = node_map(*nodes);
    let mut i: usize = 0;
    while i < pairs.len()
        invariant
            i <= pairs@.len(),
            m == node_map(*nodes),
            forall|j: int|
                0 <= j < pairs@.len() ==> m.contains_key(#[trigger] pairs@[j].0) && m[pairs@[j].0]
                    == pairs@[j].1,
            forall|k: usize| m.contains_key(k) ==> exists|j: int| 0 <= j < pairs@.len() && #[trigger] pairs@[j].0 == k,
            forall|a: int, b: int| 0 <= a < b < pairs@.len() ==> pairs@[a].0 < pairs@[b].0,
            forall|j: int| 0 <= j < i ==> pairs@[j].1 != role,
        decreases pairs@.len() - i,
    {
        if pairs[i].1 == role {
            let k = pairs[i].0;
            proof {
                assert(m.contains_key(k) && m[k] == role);
                assert forall|j: usize| m.contains_key(j) && m[j] == role implies k <= j by {
                    let x = choose|x: int| 0 <= x < pairs@.len() && #[trigger] pairs@[x].0 == j;
                    if x < i {
                        assert(pairs@[x].1 != role);
                    } else if x > i {
                    }
                }
                let c = choose|c: usize|
                    m.contains_key(c) && m[c] == role && forall|j: usize|
                        m.contains_key(j) && m[j] == role ==> c <= j;
                assert(c <= k && k <= c);
            }
            return Some(k);
        }
        i += 1;
    }
    proof {
        assert forall|k: usize| m.contains_key(k) implies m[k] != role by {
            let x = choose|x: int| 0 <= x < pairs@.len() && #[trigger] pairs@[x].0 == k;
        }
    }
    None
}

impl ShadowGraph {
    /// A graph with no nodes and no wires, under a fresh random id.
    pub fn empty() -> (r: ShadowGraph)
        ensures
            r@.nodes.dom().is_empty(),
            r@.wires.is_empty(),
            r@.disabled.is_empty(),
            r@.description.len() == 0,
            r@.schema.len() == 0,
            r@.start.is_none(),
            r@.finish.is_none(),
    {
        ShadowGraph {
            uuid: GraphId::new(),
            nodes: nodes_new(),
            wires: wires_new(),
            disabled: ids_new(),
            description: Arc::new(String::new()),
            schema: Arc::new(String::new()),
            start: None,
            finish: None,
        }
    }

    /// Whether both graphs share the collections of their content and hold
    /// the same description and schema (the graph id and the start and finish
    /// markers are not compared). Texts held in one allocation are not read;
    /// others are compared. A `true` answer means equal content; a `false` one
    /// may still be equal.
    pub fn fast_eq(&self, other: &ShadowGraph) -> (r: bool)
        ensures
            r ==> self@.nodes == other@.nodes && self@.wires == other@.wires && self@.disabled
                == other@.disabled && self@.description == other@.description && self@.schema
                == other@.schema,
            shares_parts(*self, *other) ==> r,
    {
        nodes_ptr_eq(&self.nodes, &other.nodes) && wires_ptr_eq(&self.wires, &other.wires)
            && ids_ptr_eq(&self.disabled, &other.disabled) && same_texts(&self.description, &other.description)
            && same_texts(&self.schema, &other.schema)
    }

    /// A copy with the same value.
    pub fn duplicate(&self) -> (r: ShadowGraph)
        ensures
            r@ == self@,
            shares_parts(r, *self),
    {
        ShadowGraph {
            uuid: self.uuid,
            nodes: self.nodes.clone(),
            wires: self.wires.clone(),
            disabled: self.disabled.clone(),
            description: self.description.clone(),
            schema: self.schema.clone(),
            start: self.start,
            finish: self.finish,
        }
    }

    /// The graph with node `id` in the given role.
    pub fn with_node(&self, id: usize, role: NodeRole) -> (r: ShadowGraph)
        ensures
            r@ == (GraphView { nodes: self@.nodes.insert(id, role), ..self@ }),
    {
        let mut r = self.duplicate();
        r.nodes = self.nodes.with(&id, &role);
        r
    }

    /// The graph without node `id` and without the wires that touch it.
    pub fn without_node(&self, id: usize) -> (r: ShadowGraph)
        ensures
            r@ == (if self@.nodes.contains_key(id) {
                GraphView {
                    nodes: self@.nodes.remove(id),
                    wires: edited(self@.wires, drop_io_rule(id)),
                    ..self@
                }
            } else {
                self@
            }),
    {
        if nodes_get(&self.nodes, id).is_some() {
            let mut r = self.drop_io(id);
            r.nodes = nodes_without(&self.nodes, id);
            r
        } else {
            self.duplicate()
        }
    }

    /// The graph with a wire from `out_pin` to `in_pin`.
    pub fn with_wire(&self, out_pin: OutPinId, in_pin: InPinId) -> (r: ShadowGraph)
        ensures
            r@ == (GraphView {
                wires: self@.wires.insert((Wire { out_pin, in_pin }).key_of()),
                ..self@
            }),
    {
        let wire = Wire::from_pins(out_pin, in_pin);
        let mut r = self.duplicate();
        r.wires = self.wires.with(&wire.key());
        r
    }

    /// The graph without the wire from `out_pin` to `in_pin`.
    pub fn without_wire(&self, out_pin: OutPinId, in_pin: InPinId) -> (r: ShadowGraph)
        ensures
            r@ == (GraphView {
                wires: self@.wires.remove((Wire { out_pin, in_pin }).key_of()),
                ..self@
            }),
    {
        let key = Wire::from_pins(out_pin, in_pin).key();
        if wires_contains(&self.wires, key) {
            let mut r = self.duplicate();
            r.wires = wires_without(&self.wires, key);
            r
        } else {
            let r = self.duplicate();
            assert(r@.wires =~= self@.wires.remove(key));
            r
        }
    }

    fn with_edit(&self, e: WireEdit) -> (r: ShadowGraph)
        ensures
            r@ == (GraphView { wires: edited(self@.wires, edit_rule(e)), ..self@ }),
    {
        let mut r = self.duplicate();
        r.wires = edit_wires(&self.wires, &e);
        r
    }

    /// The graph without the wires that touch `node`.
    pub fn drop_io(&self, node: usize) -> (r: ShadowGraph)
        ensures
            r@ == (GraphView { wires: edited(self@.wires, drop_io_rule(node)), ..self@ }),
    {
        self.with_edit(WireEdit::DropIo(node))
    }

    /// The graph without the wires into `pin`.
    pub fn drop_inputs(&self, pin: InPinId) -> (r: ShadowGraph)
        ensures
            r@ == (GraphView { wires: edited(self@.wires, drop_inputs_rule(pin)), ..self@ }),
    {
        self.with_edit(WireEdit::DropInputs(pin))
    }

    /// The graph without the wires out of `pin`.
    pub fn drop_outputs(&self, pin: OutPinId) -> (r: ShadowGraph)
        ensures
            r@ == (GraphView { wires: edited(self@.wires, drop_outputs_rule(pin)), ..self@ }),
    {
        self.with_edit(WireEdit::DropOutputs(pin))
    }

    /// The graph without the wires into `pin`, the wires into the later input
    /// pins of the node moved one pin down to fill the gap.
    pub fn shift_inputs(&self, pin: InPinId) -> (r: ShadowGraph)
        ensures
            r@ == (GraphView { wires: edited(self@.wires, shift_inputs_rule(pin)), ..self@ }),
    {
        self.with_edit(WireEdit::ShiftInputs(pin))
    }

    /// The graph without the wires out of `pin`, the wires out of the later
    /// output pins of the node moved one pin down to fill the gap.
    pub fn shift_outputs(&self, pin: OutPinId) -> (r: ShadowGraph)
        ensures
            r@ == (GraphView { wires: edited(self@.wires, shift_outputs_rule(pin)), ..self@ }),
    {
        self.with_edit(WireEdit::ShiftOutputs(pin))
    }

    /// The graph with the wires into pins `a` and `b` exchanged.
    pub fn swap_inputs(&self, a: InPinId, b: InPinId) -> (r: ShadowGraph)
        ensures
            r@ == (GraphView { wires: edited(self@.wires, swap_inputs_rule(a, b)), ..self@ }),
    {
        self.with_edit(WireEdit::SwapInputs(a, b))
    }

    /// The graph with the wires out of pins `a` and `b` exchanged.
    pub fn swap_outputs(&self, a: OutPinId, b: OutPinId) -> (r: ShadowGraph)
        ensures
            r@ == (GraphView { wires: edited(self@.wires, swap_outputs_rule(a, b)), ..self@ }),
    {
        self.with_edit(WireEdit::SwapOutputs(a, b))
    }

    /// Whether node `id` is disabled.
    pub fn is_disabled(&self, id: usize) -> (r: bool)
        ensures
            r == self@.disabled.contains(id),
    {
        ids_contains(&self.disabled, id)
    }

    /// The graph with node `id` enabled.
    pub fn enable_node(&self, id: usize) -> (r: ShadowGraph)
        ensures
            r@ == (GraphView { disabled: self@.disabled.remove(id), ..self@ }),
    {
        let mut r = self.duplicate();
        r.disabled = ids_without(&self.disabled, id);
        r
    }

    /// The graph with node `id` disabled.
    pub fn disable_node(&self, id: usize) -> (r: ShadowGraph)
        ensures
            r@ == (GraphView { disabled: self@.disabled.insert(id), ..self@ }),
    {
        let mut r = self.duplicate();
        r.disabled = self.disabled.with(&id);
        r
    }

    /// The graph with a new description.
    pub fn with_description(&self, desc: &str) -> (r: ShadowGraph)
        ensures
            r@ == (GraphView { description: desc@, ..self@ }),
    {
        let mut r = self.duplicate();
        r.description = Arc::new(desc.to_owned());
        r
    }

    /// The graph with a new input schema.
    pub fn with_schema(&self, schema: &str) -> (r: ShadowGraph)
        ensures
            r@ == (GraphView { schema: schema@, ..self@ }),
    {
        let mut r = self.duplicate();
        r.schema = Arc::new(schema.to_owned());
        r
    }

    /// The graph with its start and finish markers set to the first start and
    /// finish nodes (where there are such nodes) and without the wires that
    /// touch missing nodes.
    pub fn repair(&self) -> (r: ShadowGraph)
        ensures
            r@ == (GraphView {
                start: if first_with_role(self@.nodes, NodeRole::Start).is_some() {
                    first_with_role(self@.nodes, NodeRole::Start)
                } else {
                    self@.start
                },
                finish: if first_with_role(self@.nodes, NodeRole::Finish).is_some() {
                    first_with_role(self@.nodes, NodeRole::Finish)
                } else {
                    self@.finish
                },
                wires: edited(self@.wires, keep_rule(self@.nodes.dom())),
                ..self@
            }),
    {
        let mut target = self.duplicate();
        match find_role(&self.nodes, NodeRole::Start) {
            Some(id) => {
                target.start = Some(id);
            },
            None => {},
        }
        match find_role(&self.nodes, NodeRole::Finish) {
            Some(id) => {
                target.finish = Some(id);
            },
            None => {},
        }
        target.wires = self.keep_wires();
        target
    }

    /// The wires whose both ends are nodes of the graph.
    fn keep_wires(&self) -> (r: im::OrdSet<WireKey>)
        ensures
            wire_set(r) == edited(self@.wires, keep_rule(self@.nodes.dom())),
    {
        let items = wires_items(&self.wires);
        let ghost rule = keep_rule(self@.nodes.dom());
        let mut out = wires_new();
        let mut i: usize = 0;
        while i < items.len()
            invariant
                i <= items@.len(),
                items@.to_set() == self@.wires,
                rule == keep_rule(self@.nodes.dom()),
                wire_set(out) == Set::new(
                    |k: WireKey| exists|j: int| 0 <= j < i && rule(items@[j]) == Some(k),
                ),
            decreases items@.len() - i,
        {
            let ghost before = wire_set(out);
            let k = items[i];
            if nodes_get(&self.nodes, k.0).is_some() && nodes_get(&self.nodes, k.2).is_some() {
                out = wires_update(&out, k);
            }
            i += 1;
            assert(wire_set(out) =~= Set::new(
                |k: WireKey| exists|j: int| 0 <= j < i && rule(items@[j]) == Some(k),
            )) by {
                assert forall|k: WireKey| wire_set(out).contains(k) implies exists|j: int|
                    0 <= j < i && rule(items@[j]) == Some(k) by {
                    if before.contains(k) {
                        let j = choose|j: int| 0 <= j < i - 1 && rule(items@[j]) == Some(k);
                        assert(0 <= j < i && rule(items@[j]) == Some(k));
                    } else {
                        assert(rule(items@[i - 1]) == Some(k));
                    }
                }
                assert forall|k: WireKey| (exists|j: int| 0 <= j < i && rule(items@[j]) == Some(k)) implies wire_set(out).contains(k) by {
                    let j = choose|j: int| 0 <= j < i && rule(items@[j]) == Some(k);
                    if j < i - 1 {
                        assert(before.contains(k));
                    }
                }
            }
        }
        assert(wire_set(out) =~= edited(self@.wires, rule)) by {
            assert forall|k: WireKey| wire_set(out).contains(k) implies edited(self@.wires, rule).contains(k) by {
                let j = choose|j: int| 0 <= j < items@.len() && rule(items@[j]) == Some(k);
                assert(items@.to_set().contains(items@[j]));
            }
            assert forall|k: WireKey| edited(self@.wires, rule).contains(k) implies wire_set(out).contains(k) by {
                let k0 = choose|k0: WireKey| self@.wires.contains(k0) && rule(k0) == Some(k);
                assert(items@.to_set().contains(k0));
                let j = choose|j: int| 0 <= j < items@.len() && items@[j] == k0;
            }
        }
        out
    }

    /// The start node: the one the graph names if it is a start node, else the
    /// first start node.
    pub fn start_node(&self) -> (r: Option<usize>)
        ensures
            r == node_with_role(self@.nodes, self@.start, NodeRole::Start),
    {
        self.node_for(self.start, NodeRole::Start)
    }

    /// The finish node: the one the graph names if it is a finish node, else
    /// the first finish node.
    pub fn finish_node(&self) -> (r: Option<usize>)
        ensures
            r == node_with_role(self@.nodes, self@.finish, NodeRole::Finish),
    {
        self.node_for(self.finish, NodeRole::Finish)
    }

    fn node_for(&self, named: Option<usize>, role: NodeRole) -> (r: Option<usize>)
        ensures
            r == node_with_role(self@.nodes, named, role),
    {
        match named {
            Some(id) => match nodes_get(&self.nodes, id) {
                Some(found) => {
                    if found == role {
                        return named;
                    }
                },
                None => {},
            },
            None => {},
        }
        find_role(&self.nodes, role)
    }
}

/// Whether two shared texts are equal: handles to one allocation are, others
/// are compared.
fn same_texts(a: &Arc<String>, b: &Arc<String>) -> (r: bool)
    ensures
        r == (a@ == b@),
{
    text_ptr_eq(a, b) || same_text(a.as_str(), b.as_str())
}

/// Whether two graphs share the collections of their content (each is the
/// other's, or a clone of it) and hold the same description and schema.
pub open spec fn shares_parts(a: ShadowGraph, b: ShadowGraph) -> bool {
    &&& a.nodes == b.nodes
    &&& a.wires == b.wires
    &&& a.disabled == b.disabled
    &&& a.description@ == b.description@
    &&& a.schema@ == b.schema@
}

/// `std::sync::Arc::ptr_eq`: two handles to one allocation hold the same text.
#[verifier::external_body]
fn text_ptr_eq(a: &Arc<String>, b: &Arc<String>) -> (r: bool)
    ensures
        r ==> a@ == b@,
{
    Arc::ptr_eq(a, b)
}

} // verus!

verus! {

/// Exchanging the wires of two input pins twice gives back the wires one
/// started with.
pub proof fn law_swap_inputs_twice(wires: Set<WireKey>, a: InPinId, b: InPinId)
    ensures
        edited(edited(wires, swap_inputs_rule(a, b)), swap_inputs_rule(a, b)) == wires,
{
    let f = swap_inputs_rule(a, b);
    let once = edited(wires, f);
    let twice = edited(once, f);
    assert forall|k: WireKey| #[trigger] f(k) matches Some(k1) && f(k1) == Some(k) by {}
    assert forall|k: WireKey| wires.contains(k) implies twice.contains(k) by {
        let k1 = f(k).unwrap();
        assert(once.contains(k1));
    }
    assert forall|k: WireKey| twice.contains(k) implies wires.contains(k) by {
        let k1 = choose|k1: WireKey| once.contains(k1) && f(k1) == Some(k);
        let k0 = choose|k0: WireKey| wires.contains(k0) && f(k0) == Some(k1);
        assert(f(k1) == Some(k0));
    }
    assert(twice =~= wires);
}

/// Exchanging the wires of two output pins twice gives back the wires one
/// started with.
pub proof fn law_swap_outputs_twice(wires: Set<WireKey>, a: OutPinId, b: OutPinId)
    ensures
        edited(edited(wires, swap_outputs_rule(a, b)), swap_outputs_rule(a, b)) == wires,
{
    let f = swap_outputs_rule(a, b);
    let once = edited(wires, f);
    let twice = edited(once, f);
    assert forall|k: WireKey| #[trigger] f(k) matches Some(k1) && f(k1) == Some(k) by {}
    assert forall|k: WireKey| wires.contains(k) implies twice.contains(k) by {
        let k1 = f(k).unwrap();
        assert(once.contains(k1));
    }
    assert forall|k: WireKey| twice.contains(k) implies wires.contains(k) by {
        let k1 = choose|k1: WireKey| once.contains(k1) && f(k1) == Some(k);
        let k0 = choose|k0: WireKey| wires.contains(k0) && f(k0) == Some(k1);
        assert(f(k1) == Some(k0));
    }
    assert(twice =~= wires);
}

/// Dropping the wires of a node keeps exactly the wires that do not touch it.
pub proof fn law_drop_io(wires: Set<WireKey>, node: usize)
    ensures
        forall|k: WireKey|
            edited(wires, drop_io_rule(node)).contains(k) <==> (wires.contains(k) && k.0 != node
                && k.2 != node),
{
    let f = drop_io_rule(node);
    assert forall|k: WireKey| edited(wires, f).contains(k) <==> (wires.contains(k) && k.0 != node && k.2 != node) by {
        if wires.contains(k) && k.0 != node && k.2 != node {
            assert(f(k) == Some(k));
        }
    }
}

/// Dropping the wires into a pin keeps exactly the wires into other pins.
pub proof fn law_drop_inputs(wires: Set<WireKey>, pin: InPinId)
    ensures
        forall|k: WireKey|
            edited(wires, drop_inputs_rule(pin)).contains(k) <==> (wires.contains(k) && !(k.2
                == pin.node && k.3 == pin.input)),
{
    let f = drop_inputs_rule(pin);
    assert forall|k: WireKey| edited(wires, f).contains(k) <==> (wires.contains(k) && !(k.2 == pin.node && k.3 == pin.input)) by {
        if wires.contains(k) && !(k.2 == pin.node && k.3 == pin.input) {
            assert(f(k) == Some(k));
        }
    }
}

/// Shifting the inputs of a node leaves the wires into other nodes as they were.
pub proof fn law_shift_inputs_other_nodes(wires: Set<WireKey>, pin: InPinId, k: WireKey)
    requires
        k.2 != pin.node,
    ensures
        edited(wires, shift_inputs_rule(pin)).contains(k) == wires.contains(k),
{
    let f = shift_inputs_rule(pin);
    if wires.contains(k) {
        assert(f(k) == Some(k));
    }
}

/// Shifting the inputs at `pin` drops the wires into `pin`, keeps the wires
/// into the earlier pins of the node, and moves each wire into a later pin of
/// the node one pin down: after the shift a wire reaches input `i >= pin.input`
/// exactly when it reached input `i + 1` before.
pub proof fn law_shift_inputs_same_node(wires: Set<WireKey>, pin: InPinId, k: WireKey)
    requires
        k.2 == pin.node,
    ensures
        k.3 < pin.input ==> (edited(wires, shift_inputs_rule(pin)).contains(k) == wires.contains(k)),
        k.3 >= pin.input ==> (edited(wires, shift_inputs_rule(pin)).contains(k) <==> (k.3 < usize::MAX
            && wires.contains((k.0, k.1, k.2, (k.3 + 1) as usize)))),
{
    let f = shift_inputs_rule(pin);
    if k.3 < pin.input {
        if wires.contains(k) {
            assert(f(k) == Some(k));
        }
        if edited(wires, f).contains(k) {
            let k0 = choose|k0: WireKey| wires.contains(k0) && f(k0) == Some(k);
            assert(k0 == k);
        }
    } else {
        if k.3 < usize::MAX {
            let k1: WireKey = (k.0, k.1, k.2, (k.3 + 1) as usize);
            if wires.contains(k1) {
                assert(f(k1) == Some(k));
            }
        }
        if edited(wires, f).contains(k) {
            let k0 = choose|k0: WireKey| wires.contains(k0) && f(k0) == Some(k);
            assert(k0.3 == k.3 + 1);
            assert(k0 == (k.0, k.1, k.2, (k.3 + 1) as usize));
        }
    }
}

/// Adding a wire that was not there and removing it again gives back the graph.
pub proof fn law_with_then_without_wire(v: GraphView, out_pin: OutPinId, in_pin: InPinId)
    requires
        !v.wires.contains((Wire { out_pin, in_pin }).key_of()),
    ensures
        ({
            let k = (Wire { out_pin, in_pin }).key_of();
            (GraphView { wires: (GraphView { wires: v.wires.insert(k), ..v }).wires.remove(k), ..v })
                == v
        }),
{
    let k = (Wire { out_pin, in_pin }).key_of();
    assert(v.wires.insert(k).remove(k) =~= v.wires);
}

/// Disabling a node that was enabled and enabling it again gives back the graph;
/// a disabled node reads as disabled.
pub proof fn law_disable_then_enable(v: GraphView, id: usize)
    requires
        !v.disabled.contains(id),
    ensures
        v.disabled.insert(id).contains(id),
        v.disabled.insert(id).remove(id) == v.disabled,
{
    assert(v.disabled.insert(id).remove(id) =~= v.disabled);
}

/// After repair, every wire joins two nodes of the graph.
pub proof fn law_repair_connects_nodes(v: GraphView)
    ensures
        forall|k: WireKey|
            edited(v.wires, keep_rule(v.nodes.dom())).contains(k) ==> v.nodes.contains_key(k.0)
                && v.nodes.contains_key(k.2) && v.wires.contains(k),
{
    let f = keep_rule(v.nodes.dom());
    assert forall|k: WireKey| edited(v.wires, f).contains(k) implies v.nodes.contains_key(k.0)
        && v.nodes.contains_key(k.2) && v.wires.contains(k) by {
        let k0 = choose|k0: WireKey| v.wires.contains(k0) && f(k0) == Some(k);
    }
}

/// Removing a node also removes every wire that touches it.
pub proof fn law_without_node(v: GraphView, id: usize)
    requires
        v.nodes.contains_key(id),
    ensures
        !v.nodes.remove(id).contains_key(id),
        forall|k: WireKey|
            edited(v.wires, drop_io_rule(id)).contains(k) ==> k.0 != id && k.2 != id,
{
    law_drop_io(v.wires, id);
}

} // verus!

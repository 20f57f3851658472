//! The editing of workflows: which workflow is open, its unsaved shadow, the
//! saved baseline, and the undo and redo stacks of every workflow opened in
//! the session.
//!
//! Times are milliseconds on the host's clock; the host passes the current
//! time to the operations that stamp a snapshot.
use vstd::prelude::*;

use crate::chat::same_text;
use crate::collections::{
    ids_contains, ids_items, nodes_get, nodes_pairs, wires_contains, wires_items,
};
use crate::graph::{shares_parts, GraphView, ShadowGraph};
use crate::store::WorkflowStoreFile;
use crate::utils::{chars_of, text_of};

verus! {

/// A snapshot of a graph: when it was current, and the graph.
pub type Snapshot = (u64, GraphView);

/// The values of stored snapshots.
pub open spec fn snapshots(s: Seq<(u64, ShadowGraph)>) -> Seq<Snapshot> {
    s.map_values(|e: (u64, ShadowGraph)| (e.0, e.1@))
}

/// The stack of a workflow; a workflow without one has an empty stack.
pub open spec fn stack_of(m: Map<Seq<char>, Seq<Snapshot>>, k: Seq<char>) -> Seq<Snapshot> {
    if m.contains_key(k) {
        m[k]
    } else {
        Seq::empty()
    }
}

/// Whether one of the entries holds the name `k`.
pub open spec fn names_stack(v: Seq<(String, Vec<(u64, ShadowGraph)>)>, k: Seq<char>) -> bool {
    exists|i: int| 0 <= i < v.len() && #[trigger] v[i].0@ == k
}

/// The stack held under a name, by position.
pub open spec fn stack_entry(v: Seq<(String, Vec<(u64, ShadowGraph)>)>, k: Seq<char>) -> Seq<Snapshot> {
    snapshots(v[choose|i: int| 0 <= i < v.len() && #[trigger] v[i].0@ == k].1@)
}

/// Stacks of snapshots by workflow name, the most recent first; each name
/// once.
#[derive(Debug)]
pub struct SnapshotTable {
    entries: Vec<(String, Vec<(u64, ShadowGraph)>)>,
}

impl View for SnapshotTable {
    type V = Map<Seq<char>, Seq<Snapshot>>;

    closed spec fn view(&self) -> Map<Seq<char>, Seq<Snapshot>> {
        Map::new(|k: Seq<char>| names_stack(self.entries@, k), |k: Seq<char>| stack_entry(self.entries@, k))
    }
}

/// Names that occur once each.
pub open spec fn stack_names_distinct(v: Seq<(String, Vec<(u64, ShadowGraph)>)>) -> bool {
    forall|a: int, b: int| 0 <= a < b < v.len() ==> #[trigger] v[a].0@ != #[trigger] v[b].0@
}

/// The stack under a name is the one at any position that holds the name.
proof fn lemma_stack_at(v: Seq<(String, Vec<(u64, ShadowGraph)>)>, k: Seq<char>, i: int)
    requires
        stack_names_distinct(v),
        0 <= i < v.len(),
        v[i].0@ == k,
    ensures
        names_stack(v, k),
        stack_entry(v, k) == snapshots(v[i].1@),
{
    let j = choose|j: int| 0 <= j < v.len() && #[trigger] v[j].0@ == k;
    if j != i {
        if j < i {
            assert(v[j].0@ != v[i].0@);
        } else {
            assert(v[i].0@ != v[j].0@);
        }
    }
}

impl SnapshotTable {
    #[verifier::type_invariant]
    closed spec fn distinct(self) -> bool {
        stack_names_distinct(self.entries@)
    }

    /// No stacks.
    pub fn new() -> (r: Self)
        ensures
            r@ == Map::<Seq<char>, Seq<Snapshot>>::empty(),
    {
        let r = SnapshotTable { entries: Vec::new() };
        assert(r@ =~= Map::<Seq<char>, Seq<Snapshot>>::empty());
        r
    }

    fn position(&self, key: &str) -> (r: Option<usize>)
        ensures
            r is Some == self@.contains_key(key@),
            r matches Some(i) ==> i < self.entries@.len() && self.entries@[i as int].0@ == key@
                && self@[key@] == snapshots(self.entries@[i as int].1@),
    {
        proof {
            use_type_invariant(self);
        }
        let mut i: usize = 0;
        while i < self.entries.len()
            invariant
                i <= self.entries@.len(),
                stack_names_distinct(self.entries@),
                forall|k: int| 0 <= k < i ==> #[trigger] self.entries@[k].0@ != key@,
            decreases self.entries@.len() - i,
        {
            if same_text(self.entries[i].0.as_str(), key) {
                proof {
                    lemma_stack_at(self.entries@, key@, i as int);
                }
                return Some(i);
            }
            i += 1;
        }
        None
    }

    /// Whether a stack is held under `key` (an empty one counts).
    pub fn contains(&self, key: &str) -> (r: bool)
        ensures
            r == self@.contains_key(key@),
    {
        self.position(key).is_some()
    }

    /// The number of snapshots on the stack of `key`.
    pub fn depth(&self, key: &str) -> (r: usize)
        ensures
            r == stack_of(self@, key@).len(),
    {
        match self.position(key) {
            Some(i) => self.entries[i].1.len(),
            None => 0,
        }
    }

    /// Takes the stack of `key` out, leaving an empty stack under `key`.
    pub fn take(&mut self, key: &str) -> (r: Vec<(u64, ShadowGraph)>)
        ensures
            snapshots(r@) == stack_of(old(self)@, key@),
            final(self)@ == old(self)@.insert(key@, Seq::empty()),
    {
        let mut empty: Vec<(u64, ShadowGraph)> = Vec::new();
        assert(snapshots(empty@) =~= Seq::<Snapshot>::empty());
        self.place(key, &mut empty);
        empty
    }

    /// Sets the stack of `key`.
    pub fn put(&mut self, key: &str, stack: Vec<(u64, ShadowGraph)>)
        ensures
            final(self)@ == old(self)@.insert(key@, snapshots(stack@)),
    {
        let mut s = stack;
        self.place(key, &mut s);
    }

    /// Puts `stack` under `key` and hands back the stack that was there.
    fn place(&mut self, key: &str, stack: &mut Vec<(u64, ShadowGraph)>)
        ensures
            snapshots(final(stack)@) == stack_of(old(self)@, key@),
            final(self)@ == old(self)@.insert(key@, snapshots(old(stack)@)),
    {
        proof {
            use_type_invariant(&*self);
        }
        let ghost before = self.entries@;
        let ghost put_view = snapshots(stack@);
        let ghost target = old(self)@.insert(key@, put_view);
        let pos = self.position(key);
        let mut items: Vec<(String, Vec<(u64, ShadowGraph)>)> = Vec::new();
        std::mem::swap(&mut items, &mut self.entries);
        match pos {
            Some(i) => {
                let mut slot: Vec<(u64, ShadowGraph)> = Vec::new();
                std::mem::swap(&mut slot, stack);
                let (name, prev) = items.remove(i);
                items.insert(i, (name, slot));
                *stack = prev;
                proof {
                    assert forall|a: int, b: int|
                        0 <= a < b < items@.len() implies #[trigger] items@[a].0@ != #[trigger] items@[b].0@ by {
                        assert(before[a].0@ != before[b].0@);
                    }
                    assert forall|j: int| 0 <= j < before.len() && j != i implies items@[j] == before[j] by {}
                }
                self.entries = items;
                proof {
                    assert forall|k: Seq<char>| #[trigger] self@.contains_key(k) == target.contains_key(k) by {
                        if names_stack(self.entries@, k) {
                            let j = choose|j: int| 0 <= j < self.entries@.len() && #[trigger] self.entries@[j].0@ == k;
                            if j != i {
                                assert(before[j].0@ == k);
                            }
                        }
                        if names_stack(before, k) {
                            let j = choose|j: int| 0 <= j < before.len() && #[trigger] before[j].0@ == k;
                            assert(self.entries@[j].0@ == k);
                        }
                        if k == key@ {
                            assert(self.entries@[i as int].0@ == k);
                        }
                    }
                    assert forall|k: Seq<char>| #[trigger] self@.contains_key(k) implies self@[k] == target[k] by {
                        let j = choose|j: int| 0 <= j < self.entries@.len() && #[trigger] self.entries@[j].0@ == k;
                        lemma_stack_at(self.entries@, k, j);
                        if k == key@ {
                            lemma_stack_at(self.entries@, k, i as int);
                        } else {
                            assert(j != i);
                            lemma_stack_at(before, k, j);
                        }
                    }
                    assert(self@ =~= target);
                }
            },
            None => {
                let mut slot: Vec<(u64, ShadowGraph)> = Vec::new();
                std::mem::swap(&mut slot, stack);
                items.push((key.to_owned(), slot));
                proof {
                    assert(snapshots(stack@) =~= Seq::<Snapshot>::empty());
                    assert forall|a: int, b: int|
                        0 <= a < b < items@.len() implies #[trigger] items@[a].0@ != #[trigger] items@[b].0@ by {
                        if b == before.len() {
                            assert(items@[a] == before[a]);
                        } else {
                            assert(before[a].0@ != before[b].0@);
                        }
                    }
                }
                self.entries = items;
                proof {
                    let n = before.len() as int;
                    assert forall|k: Seq<char>| #[trigger] self@.contains_key(k) == target.contains_key(k) by {
                        if names_stack(self.entries@, k) {
                            let j = choose|j: int| 0 <= j < self.entries@.len() && #[trigger] self.entries@[j].0@ == k;
                            if j != n {
                                assert(before[j].0@ == k);
                            }
                        }
                        if names_stack(before, k) {
                            let j = choose|j: int| 0 <= j < before.len() && #[trigger] before[j].0@ == k;
                            assert(self.entries@[j].0@ == k);
                        }
                        if k == key@ {
                            assert(self.entries@[n].0@ == k);
                        }
                    }
                    assert forall|k: Seq<char>| #[trigger] self@.contains_key(k) implies self@[k] == target[k] by {
                        let j = choose|j: int| 0 <= j < self.entries@.len() && #[trigger] self.entries@[j].0@ == k;
                        lemma_stack_at(self.entries@, k, j);
                        if k == key@ {
                            lemma_stack_at(self.entries@, k, n);
                        } else {
                            assert(j != n);
                            lemma_stack_at(before, k, j);
                        }
                    }
                    assert(self@ =~= target);
                }
            },
        }
    }

    /// Drops the stack of `key`.
    pub fn remove(&mut self, key: &str)
        ensures
            final(self)@ == old(self)@.remove(key@),
    {
        proof {
            use_type_invariant(&*self);
        }
        match self.position(key) {
            Some(idx) => {
                let ghost before = self.entries@;
                let mut items: Vec<(String, Vec<(u64, ShadowGraph)>)> = Vec::new();
                std::mem::swap(&mut items, &mut self.entries);
                items.remove(idx);
                proof {
                    assert forall|a: int, b: int|
                        0 <= a < b < items@.len() implies #[trigger] items@[a].0@ != #[trigger] items@[b].0@ by {
                        let a2 = if a < idx { a } else { a + 1 };
                        let b2 = if b < idx { b } else { b + 1 };
                        assert(items@[a] == before[a2]);
                        assert(items@[b] == before[b2]);
                    }
                }
                self.entries = items;
                proof {
                    let target = old(self)@.remove(key@);
                    assert forall|k: Seq<char>| #[trigger] self@.contains_key(k) == target.contains_key(k) by {
                        if names_stack(self.entries@, k) {
                            let j = choose|j: int| 0 <= j < self.entries@.len() && #[trigger] self.entries@[j].0@ == k;
                            let j2 = if j < idx { j } else { j + 1 };
                            assert(before[j2].0@ == k);
                            assert(j2 != idx);
                        }
                        if names_stack(before, k) && k != key@ {
                            let j = choose|j: int| 0 <= j < before.len() && #[trigger] before[j].0@ == k;
                            assert(j != idx);
                            if j < idx {
                                assert(self.entries@[j].0@ == k);
                            } else {
                                assert(self.entries@[j - 1].0@ == k);
                            }
                        }
                    }
                    assert forall|k: Seq<char>| #[trigger] self@.contains_key(k) implies self@[k] == target[k] by {
                        let j = choose|j: int| 0 <= j < self.entries@.len() && #[trigger] self.entries@[j].0@ == k;
                        let j2 = if j < idx { j } else { j + 1 };
                        assert(self.entries@[j] == before[j2]);
                        lemma_stack_at(self.entries@, k, j);
                        lemma_stack_at(before, k, j2);
                    }
                    assert(self@ =~= target);
                }
            },
            None => {
                assert(self@ =~= old(self)@.remove(key@));
            },
        }
    }
}

/// Whether two graphs are equal in every part: id, nodes, wires, disabled
/// nodes, texts, start and finish.
pub fn same_graph(a: &ShadowGraph, b: &ShadowGraph) -> (r: bool)
    ensures
        r == (a@ == b@),
{
    if a.uuid != b.uuid || a.start != b.start || a.finish != b.finish {
        return false;
    }
    if !same_text(a.description.as_str(), b.description.as_str()) || !same_text(
        a.schema.as_str(),
        b.schema.as_str(),
    ) {
        return false;
    }
    if !nodes_within(a, b) || !nodes_within(b, a) {
        return false;
    }
    if !wires_within(a, b) || !wires_within(b, a) {
        return false;
    }
    if !disabled_within(a, b) || !disabled_within(b, a) {
        return false;
    }
    assert(a@.nodes =~= b@.nodes);
    assert(a@.wires =~= b@.wires);
    assert(a@.disabled =~= b@.disabled);
    true
}

/// Whether every node of `a` is in `b` in the same role.
fn nodes_within(a: &ShadowGraph, b: &ShadowGraph) -> (r: bool)
    ensures
        r == forall|k: usize| #[trigger] a@.nodes.contains_key(k) ==> b@.nodes.contains_key(k)
            && b@.nodes[k] == a@.nodes[k],
{
    let pairs = nodes_pairs(&a.nodes);
    let mut i: usize = 0;
    while i < pairs.len()
        invariant
            i <= pairs@.len(),
            forall|j: int|
                0 <= j < pairs@.len() ==> a@.nodes.contains_key(#[trigger] pairs@[j].0) && a@.nodes[pairs@[j].0]
                    == pairs@[j].1,
            forall|k: usize| a@.nodes.contains_key(k) ==> exists|j: int| 0 <= j < pairs@.len() && #[trigger] pairs@[j].0 == k,
            forall|j: int|
                0 <= j < i ==> b@.nodes.contains_key(#[trigger] pairs@[j].0) && b@.nodes[pairs@[j].0]
                    == pairs@[j].1,
        decreases pairs@.len() - i,
    {
        let (k, role) = pairs[i];
        match nodes_get(&b.nodes, k) {
            Some(other) => {
                if other != role {
                    return false;
                }
            },
            None => {
                return false;
            },
        }
        i += 1;
    }
    proof {
        assert forall|k: usize| #[trigger] a@.nodes.contains_key(k) implies b@.nodes.contains_key(k)
            && b@.nodes[k] == a@.nodes[k] by {
            let j = choose|j: int| 0 <= j < pairs@.len() && #[trigger] pairs@[j].0 == k;
        }
    }
    true
}

/// Whether every wire of `a` is in `b`.
fn wires_within(a: &ShadowGraph, b: &ShadowGraph) -> (r: bool)
    ensures
        r == a@.wires.subset_of(b@.wires),
{
    let items = wires_items(&a.wires);
    let mut i: usize = 0;
    while i < items.len()
        invariant
            i <= items@.len(),
            items@.to_set() == a@.wires,
            forall|j: int| 0 <= j < i ==> b@.wires.contains(#[trigger] items@[j]),
        decreases items@.len() - i,
    {
        if !wires_contains(&b.wires, items[i]) {
            proof {
                assert(items@.to_set().contains(items@[i as int]));
            }
            return false;
        }
        i += 1;
    }
    proof {
        assert forall|w| a@.wires.contains(w) implies b@.wires.contains(w) by {
            assert(items@.to_set().contains(w));
            let j = choose|j: int| 0 <= j < items@.len() && items@[j] == w;
            assert(b@.wires.contains(items@[j]));
        }
    }
    true
}

/// Whether every disabled node of `a` is disabled in `b`.
fn disabled_within(a: &ShadowGraph, b: &ShadowGraph) -> (r: bool)
    ensures
        r == a@.disabled.subset_of(b@.disabled),
{
    let items = ids_items(&a.disabled);
    let mut i: usize = 0;
    while i < items.len()
        invariant
            i <= items@.len(),
            items@.to_set() == a@.disabled,
            forall|j: int| 0 <= j < i ==> b@.disabled.contains(#[trigger] items@[j]),
        decreases items@.len() - i,
    {
        if !ids_contains(&b.disabled, items[i]) {
            proof {
                assert(items@.to_set().contains(items@[i as int]));
            }
            return false;
        }
        i += 1;
    }
    proof {
        assert forall|w| a@.disabled.contains(w) implies b@.disabled.contains(w) by {
            assert(items@.to_set().contains(w));
            let j = choose|j: int| 0 <= j < items@.len() && items@[j] == w;
            assert(b@.disabled.contains(items@[j]));
        }
    }
    true
}


/// How much later than the last snapshot an edit must come to get a snapshot
/// of its own; an edit sooner than this replaces the last snapshot.
pub open spec fn debounce_ms() -> u64 {
    1000
}

/// The length beyond which a stack is thinned.
pub open spec fn soft_limit() -> int {
    128
}

/// Whether the most recent snapshot is less than the debounce interval old.
pub open spec fn recent(s: Seq<Snapshot>, now: u64) -> bool {
    s.len() > 0 && s[0].0 <= now && now - s[0].0 < debounce_ms()
}

/// A stack longer than the limit keeps every other snapshot, from the most
/// recent, up to half the limit beyond it.
pub open spec fn pruned(s: Seq<Snapshot>) -> Seq<Snapshot> {
    if s.len() > soft_limit() {
        Seq::new((soft_limit() / 2 + 1) as nat, |k: int| s[2 * k])
    } else {
        s
    }
}

/// The index of the snapshot an undo lands on: the first, unless it equals
/// the current graph, in which case the next, and so on, stopping at the
/// last.
pub open spec fn undo_stop(u: Seq<Snapshot>, g: GraphView, j: int) -> int
    decreases u.len() - j,
{
    if j + 1 >= u.len() || u[j].1 != g {
        j
    } else {
        undo_stop(u, g, j + 1)
    }
}

/// Whether two graphs have the same nodes, wires, disabled nodes and texts.
pub open spec fn same_content(a: GraphView, b: GraphView) -> bool {
    &&& a.nodes == b.nodes
    &&& a.wires == b.wires
    &&& a.disabled == b.disabled
    &&& a.description == b.description
    &&& a.schema == b.schema
}

/// Why a workflow could not be renamed.
#[derive(Debug, Clone, PartialEq, Eq)]
pub enum EditError {
    /// The new name has no file name in it.
    InvalidName,
    /// A workflow of the new name is stored already.
    Exists(String),
}

/// The editing state of the workflows.
#[derive(Debug)]
pub struct WorkflowState {
    /// Whether edits are ignored (after an undo or a redo, until unfrozen).
    pub frozen: bool,
    /// The name of the workflow being edited.
    pub editing: String,
    /// The name the workflow is about to be renamed to.
    pub renaming: Option<String>,
    /// When the shadow was last changed.
    pub modtime: u64,
    /// How many times the shadow was replaced by another graph.
    pub switch_count: usize,
    /// The stored workflows.
    pub store: WorkflowStoreFile,
    /// The graph a workflow that is not stored opens with.
    pub default_graph: ShadowGraph,
    /// The version of the workflow last saved.
    pub baseline: ShadowGraph,
    /// The version being edited.
    pub shadow: ShadowGraph,
    /// The earlier versions, by workflow.
    pub undo_stack: SnapshotTable,
    /// The versions undone, by workflow.
    pub redo_stack: SnapshotTable,
}

/// The mathematical value of a [`WorkflowState`].
pub struct EditView {
    pub frozen: bool,
    pub editing: Seq<char>,
    pub renaming: Option<Seq<char>>,
    pub modtime: u64,
    pub switch_count: usize,
    pub store: Map<Seq<char>, GraphView>,
    pub default_graph: GraphView,
    pub baseline: GraphView,
    pub shadow: GraphView,
    pub undo: Map<Seq<char>, Seq<Snapshot>>,
    pub redo: Map<Seq<char>, Seq<Snapshot>>,
}

impl View for WorkflowState {
    type V = EditView;

    open spec fn view(&self) -> EditView {
        EditView {
            frozen: self.frozen,
            editing: self.editing@,
            renaming: self.renaming.deep_view(),
            modtime: self.modtime,
            switch_count: self.switch_count,
            store: self.store@,
            default_graph: self.default_graph@,
            baseline: self.baseline@,
            shadow: self.shadow@,
            undo: self.undo_stack@,
            redo: self.redo_stack@,
        }
    }
}

/// The graph a workflow opens with: the stored one, else the default.
pub open spec fn stored_or_default(v: EditView, name: Seq<char>) -> GraphView {
    if v.store.contains_key(name) {
        v.store[name]
    } else {
        v.default_graph
    }
}

/// The state after opening workflow `name` at time `now`: the unsaved
/// version of the workflow being left goes onto its undo stack; the opened
/// workflow resumes from the top of its own undo stack, or from its stored
/// version.
pub open spec fn switched(v: EditView, name: Seq<char>, now: u64) -> EditView {
    if v.editing == name {
        v
    } else {
        let undo1 = v.undo.insert(v.editing, seq![(v.modtime, v.shadow)] + stack_of(v.undo, v.editing));
        let baseline = stored_or_default(v, name);
        let s = stack_of(undo1, name);
        let count = (v.switch_count + 1) as usize;
        if s.len() > 0 {
            EditView {
                frozen: false,
                editing: name,
                renaming: None,
                modtime: s[0].0,
                switch_count: count,
                baseline,
                shadow: s[0].1,
                undo: undo1.insert(name, s.drop_first()),
                ..v
            }
        } else {
            EditView {
                frozen: false,
                editing: name,
                renaming: None,
                modtime: now,
                switch_count: count,
                baseline,
                shadow: baseline,
                undo: undo1,
                ..v
            }
        }
    }
}

/// The state after the edit that makes `g` the shadow at time `now`: the
/// old shadow goes onto the undo stack (in place of a snapshot taken less
/// than the debounce interval before), the stack is thinned when too long,
/// and the redo stack of the workflow is dropped.
pub open spec fn recorded(v: EditView, g: GraphView, now: u64) -> EditView {
    let u = stack_of(v.undo, v.editing);
    let u1 = if recent(u, now) {
        u.drop_first()
    } else {
        u
    };
    EditView {
        undo: v.undo.insert(v.editing, pruned(seq![(v.modtime, v.shadow)] + u1)),
        redo: v.redo.remove(v.editing),
        shadow: g,
        modtime: now,
        ..v
    }
}

/// The state after an undo: the shadow goes onto the redo stack and the
/// snapshot the undo lands on (see [`undo_stop`]) becomes the shadow; the
/// workflow is frozen. With nothing to undo, only empty stacks are made.
pub open spec fn undone(v: EditView) -> EditView {
    let u = stack_of(v.undo, v.editing);
    let r = stack_of(v.redo, v.editing);
    if u.len() == 0 {
        EditView { undo: v.undo.insert(v.editing, u), redo: v.redo.insert(v.editing, r), ..v }
    } else {
        let k = undo_stop(u, v.shadow, 0);
        EditView {
            undo: v.undo.insert(v.editing, u.skip(k + 1)),
            redo: v.redo.insert(v.editing, seq![(v.modtime, v.shadow)] + r),
            shadow: u[k].1,
            modtime: u[k].0,
            switch_count: (v.switch_count + 1) as usize,
            frozen: true,
            ..v
        }
    }
}

/// The state after a redo: the shadow goes onto the undo stack and the top
/// of the redo stack becomes the shadow; the workflow is frozen. With
/// nothing to redo, only empty stacks are made.
pub open spec fn redone(v: EditView) -> EditView {
    let u = stack_of(v.undo, v.editing);
    let r = stack_of(v.redo, v.editing);
    if r.len() == 0 {
        EditView { undo: v.undo.insert(v.editing, u), redo: v.redo.insert(v.editing, r), ..v }
    } else {
        EditView {
            undo: v.undo.insert(v.editing, seq![(v.modtime, v.shadow)] + u),
            redo: v.redo.insert(v.editing, r.drop_first()),
            shadow: r[0].1,
            modtime: r[0].0,
            switch_count: (v.switch_count + 1) as usize,
            frozen: true,
            ..v
        }
    }
}

/// A copy of a snapshot.
fn copy_snapshot(e: &(u64, ShadowGraph)) -> (r: (u64, ShadowGraph))
    ensures
        r.0 == e.0,
        r.1@ == e.1@,
{
    (e.0, e.1.duplicate())
}

/// Keeps every other snapshot of a stack that is too long (see [`pruned`]).
fn thin(u: &Vec<(u64, ShadowGraph)>) -> (r: Vec<(u64, ShadowGraph)>)
    requires
        u@.len() > soft_limit(),
    ensures
        snapshots(r@) == pruned(snapshots(u@)),
{
    let mut out: Vec<(u64, ShadowGraph)> = Vec::new();
    let mut k: usize = 0;
    while k <= 64
        invariant
            k <= 65,
            u@.len() > 128,
            out@.len() == k,
            forall|j: int| 0 <= j < k ==> #[trigger] snapshots(out@)[j] == snapshots(u@)[2 * j],
        decreases 65 - k,
    {
        let ghost before = out@;
        out.push(copy_snapshot(&u[2 * k]));
        proof {
            assert(snapshots(out@) =~= snapshots(before).push(snapshots(u@)[2 * k as int]));
        }
        k += 1;
    }
    assert(snapshots(out@) =~= pruned(snapshots(u@)));
    out
}

/// The snapshots after the first.
proof fn lemma_snapshots_drop_first(s: Seq<(u64, ShadowGraph)>)
    requires
        s.len() > 0,
    ensures
        snapshots(s.remove(0)) == snapshots(s).drop_first(),
        snapshots(s)[0] == (s[0].0, s[0].1@),
{
    assert(snapshots(s.remove(0)) =~= snapshots(s).drop_first());
}

/// The snapshots with one put in front.
proof fn lemma_snapshots_insert_front(s: Seq<(u64, ShadowGraph)>, e: (u64, ShadowGraph))
    ensures
        snapshots(s.insert(0, e)) == seq![(e.0, e.1@)] + snapshots(s),
{
    assert(snapshots(s.insert(0, e)) =~= seq![(e.0, e.1@)] + snapshots(s));
}


impl WorkflowState {
    /// The editing state over `store`, opening `current` when it is stored and
    /// the workflow "basic" otherwise; `default_graph` is what a workflow that
    /// is not stored opens with, and `now` the time.
    pub fn new(store: WorkflowStoreFile, current: Option<String>, default_graph: ShadowGraph, now: u64) -> (r: Self)
        ensures
            r@.editing == (match current {
                Some(c) => if store@.contains_key(c@) {
                    c@
                } else {
                    "basic"@
                },
                None => "basic"@,
            }),
            r@.store == store@,
            r@.default_graph == default_graph@,
            r@.baseline == stored_or_default(r@, r@.editing),
            r@.shadow == r@.baseline,
            r@.modtime == now,
            !r@.frozen,
            r@.renaming is None,
            r@.switch_count == 0,
            r@.undo == Map::<Seq<char>, Seq<Snapshot>>::empty(),
            r@.redo == Map::<Seq<char>, Seq<Snapshot>>::empty(),
    {
        let editing = match current {
            Some(c) => if store.contains(c.as_str()) {
                c
            } else {
                "basic".to_owned()
            },
            None => "basic".to_owned(),
        };
        let baseline = match store.get(editing.as_str()) {
            Some(g) => g,
            None => default_graph.duplicate(),
        };
        let shadow = baseline.duplicate();
        WorkflowState {
            frozen: false,
            editing,
            renaming: None,
            modtime: now,
            switch_count: 0,
            store,
            default_graph,
            baseline,
            shadow,
            undo_stack: SnapshotTable::new(),
            redo_stack: SnapshotTable::new(),
        }
    }

    /// Whether the shadow may differ from the saved version. The graphs are
    /// compared by identity of their collections and by their texts: `false`
    /// means the same content, and a shadow that shares the baseline's parts
    /// has no changes.
    pub fn has_changes(&self) -> (r: bool)
        ensures
            !r ==> same_content(self@.shadow, self@.baseline),
            shares_parts(self.shadow, self.baseline) ==> !r,
    {
        !self.shadow.fast_eq(&self.baseline)
    }

    /// Whether the workflow being edited has an undo stack (an empty one
    /// counts): an edit without one is the first of the session.
    pub fn has_history(&self) -> (r: bool)
        ensures
            r == self@.undo.contains_key(self@.editing),
    {
        self.undo_stack.contains(self.editing.as_str())
    }

    /// How many edits can be undone.
    pub fn get_undo_count(&self) -> (r: usize)
        ensures
            r == stack_of(self@.undo, self@.editing).len(),
    {
        self.undo_stack.depth(self.editing.as_str())
    }

    /// How many undone edits can be redone.
    pub fn get_redo_count(&self) -> (r: usize)
        ensures
            r == stack_of(self@.redo, self@.editing).len(),
    {
        self.redo_stack.depth(self.editing.as_str())
    }

    /// Makes `shadow` the version being edited at time `now`, keeping the old
    /// one for undo. Nothing changes while the workflow is frozen, nor when
    /// the new version shares every part with the current one.
    pub fn cast_shadow(&mut self, shadow: ShadowGraph, now: u64)
        ensures
            old(self)@.frozen ==> final(self)@ == old(self)@,
            !old(self)@.frozen ==> (final(self)@ == recorded(old(self)@, shadow@, now) || (final(self)@
                == old(self)@ && same_content(old(self)@.shadow, shadow@))),
            shares_parts(old(self).shadow, shadow) ==> final(self)@ == old(self)@,
    {
        if self.frozen || self.shadow.fast_eq(&shadow) {
            return;
        }
        let ghost v = self@;
        let mut u = self.undo_stack.take(self.editing.as_str());
        let ghost u0 = snapshots(u@);
        if u.len() > 0 && u[0].0 <= now && now - u[0].0 < 1000 {
            proof {
                lemma_snapshots_drop_first(u@);
            }
            u.remove(0);
        }
        let ghost u1 = snapshots(u@);
        assert(u1 == if recent(u0, now) { u0.drop_first() } else { u0 });
        let top = (self.modtime, self.shadow.duplicate());
        proof {
            lemma_snapshots_insert_front(u@, top);
        }
        u.insert(0, top);
        if u.len() > 128 {
            u = thin(&u);
        }
        assert(snapshots(u@) == pruned(seq![(v.modtime, v.shadow)] + u1));
        self.undo_stack.put(self.editing.as_str(), u);
        self.redo_stack.remove(self.editing.as_str());
        self.shadow = shadow;
        self.modtime = now;
        assert(self.undo_stack@ =~= v.undo.insert(v.editing, pruned(seq![(v.modtime, v.shadow)] + u1)));
        assert(self@ == recorded(v, shadow@, now));
    }
}


impl WorkflowState {
    /// Goes back to the version before the last edit (skipping versions equal
    /// to the current one, see [`undone`]).
    pub fn undo(&mut self)
        requires
            old(self).switch_count < usize::MAX,
        ensures
            final(self)@ == undone(old(self)@),
    {
        let ghost v = self@;
        let mut u = self.undo_stack.take(self.editing.as_str());
        let mut r = self.redo_stack.take(self.editing.as_str());
        let ghost u0 = snapshots(u@);
        let ghost r0 = snapshots(r@);
        if u.len() == 0 {
            self.undo_stack.put(self.editing.as_str(), u);
            self.redo_stack.put(self.editing.as_str(), r);
            assert(self.undo_stack@ =~= v.undo.insert(v.editing, u0));
            assert(self.redo_stack@ =~= v.redo.insert(v.editing, r0));
            return;
        }
        proof {
            lemma_snapshots_drop_first(u@);
        }
        let (mut mt, mut sg) = u.remove(0);
        let top = (self.modtime, self.shadow.duplicate());
        proof {
            lemma_snapshots_insert_front(r@, top);
        }
        r.insert(0, top);
        let ghost mut j: int = 0;
        while u.len() > 0 && same_graph(&self.shadow, &sg)
            invariant
                0 <= j < u0.len(),
                u0.len() > 0,
                self.shadow@ == v.shadow,
                mt == u0[j].0,
                sg@ == u0[j].1,
                snapshots(u@) == u0.skip(j + 1),
                undo_stop(u0, v.shadow, j) == undo_stop(u0, v.shadow, 0),
            decreases u@.len(),
        {
            proof {
                lemma_snapshots_drop_first(u@);
                assert(u0.skip(j + 1).drop_first() =~= u0.skip(j + 2));
            }
            let (m2, g2) = u.remove(0);
            mt = m2;
            sg = g2;
            proof {
                j = j + 1;
            }
        }
        proof {
            assert(undo_stop(u0, v.shadow, j) == j);
        }
        self.undo_stack.put(self.editing.as_str(), u);
        self.redo_stack.put(self.editing.as_str(), r);
        self.shadow = sg;
        self.modtime = mt;
        self.switch_count = self.switch_count + 1;
        self.frozen = true;
        assert(self.undo_stack@ =~= v.undo.insert(v.editing, u0.skip(j + 1)));
        assert(self.redo_stack@ =~= v.redo.insert(v.editing, seq![(v.modtime, v.shadow)] + r0));
    }

    /// Brings back the version last undone.
    pub fn redo(&mut self)
        requires
            old(self).switch_count < usize::MAX,
        ensures
            final(self)@ == redone(old(self)@),
    {
        let ghost v = self@;
        let mut u = self.undo_stack.take(self.editing.as_str());
        let mut r = self.redo_stack.take(self.editing.as_str());
        let ghost u0 = snapshots(u@);
        let ghost r0 = snapshots(r@);
        if r.len() == 0 {
            self.undo_stack.put(self.editing.as_str(), u);
            self.redo_stack.put(self.editing.as_str(), r);
            assert(self.undo_stack@ =~= v.undo.insert(v.editing, u0));
            assert(self.redo_stack@ =~= v.redo.insert(v.editing, r0));
            return;
        }
        proof {
            lemma_snapshots_drop_first(r@);
        }
        let (ts, sg) = r.remove(0);
        let top = (self.modtime, self.shadow.duplicate());
        proof {
            lemma_snapshots_insert_front(u@, top);
        }
        u.insert(0, top);
        self.undo_stack.put(self.editing.as_str(), u);
        self.redo_stack.put(self.editing.as_str(), r);
        self.shadow = sg;
        self.modtime = ts;
        self.switch_count = self.switch_count + 1;
        self.frozen = true;
        assert(self.undo_stack@ =~= v.undo.insert(v.editing, seq![(v.modtime, v.shadow)] + u0));
        assert(self.redo_stack@ =~= v.redo.insert(v.editing, r0.drop_first()));
    }

    /// Opens workflow `name` at time `now` (see [`switched`]).
    pub fn switch(&mut self, name: &str, now: u64)
        requires
            old(self).switch_count < usize::MAX,
        ensures
            final(self)@ == switched(old(self)@, name@, now),
    {
        if same_text(self.editing.as_str(), name) {
            return;
        }
        let ghost v = self@;
        let mut stash = self.undo_stack.take(self.editing.as_str());
        let top = (self.modtime, self.shadow.duplicate());
        proof {
            lemma_snapshots_insert_front(stash@, top);
        }
        stash.insert(0, top);
        self.undo_stack.put(self.editing.as_str(), stash);
        let ghost undo1 = v.undo.insert(v.editing, seq![(v.modtime, v.shadow)] + stack_of(v.undo, v.editing));
        assert(self.undo_stack@ =~= undo1);
        self.baseline = match self.store.get(name) {
            Some(g) => g,
            None => self.default_graph.duplicate(),
        };
        if self.undo_stack.depth(name) > 0 {
            let mut s = self.undo_stack.take(name);
            proof {
                lemma_snapshots_drop_first(s@);
            }
            let (mt, sg) = s.remove(0);
            let ghost rest = snapshots(s@);
            self.undo_stack.put(name, s);
            assert(self.undo_stack@ =~= undo1.insert(name@, stack_of(undo1, name@).drop_first()));
            self.shadow = sg;
            self.modtime = mt;
        } else {
            self.shadow = self.baseline.duplicate();
            self.modtime = now;
        }
        self.frozen = false;
        self.editing = name.to_owned();
        self.renaming = None;
        self.switch_count = self.switch_count + 1;
    }

    /// Saves the version being edited under its name; it becomes the saved
    /// version.
    pub fn save(&mut self)
        ensures
            final(self)@ == (EditView {
                store: old(self)@.store.insert(old(self)@.editing, old(self)@.shadow),
                baseline: old(self)@.shadow,
                ..old(self)@
            }),
    {
        let copy = self.shadow.duplicate();
        self.store.put(self.editing.as_str(), copy);
        self.baseline = self.shadow.duplicate();
    }

    /// Drops the stored version of the workflow being edited.
    pub fn remove(&mut self)
        ensures
            final(self)@ == (EditView { store: old(self)@.store.remove(old(self)@.editing), ..old(self)@ }),
    {
        self.store.remove(self.editing.as_str());
    }

    /// The names of the stored workflows.
    pub fn names(&self) -> (r: Vec<String>)
        ensures
            forall|k: Seq<char>|
                self@.store.contains_key(k) <==> exists|i: int| 0 <= i < r@.len() && #[trigger] r@[i]@ == k,
    {
        self.store.names()
    }

    /// The description of a stored workflow; empty when there is none.
    pub fn description(&self, name: &str) -> (r: String)
        ensures
            r@ == if self@.store.contains_key(name@) {
                self@.store[name@].description
            } else {
                Seq::empty()
            },
    {
        self.store.description(name)
    }
}


/// A text without the leading characters `c`.
pub open spec fn trim_start(s: Seq<char>, c: char) -> Seq<char>
    decreases s.len(),
{
    if s.len() > 0 && s[0] == c {
        trim_start(s.drop_first(), c)
    } else {
        s
    }
}

/// A text without the trailing characters `c`.
pub open spec fn trim_end(s: Seq<char>, c: char) -> Seq<char>
    decreases s.len(),
{
    if s.len() > 0 && s.last() == c {
        trim_end(s.drop_last(), c)
    } else {
        s
    }
}

/// A text without the characters `c` at either end.
pub open spec fn trimmed(s: Seq<char>, c: char) -> Seq<char> {
    trim_end(trim_start(s, c), c)
}

/// Removes the characters `c` at either end of a text.
pub fn trim_char(s: &str, c: char) -> (r: String)
    ensures
        r@ == trimmed(s@, c),
{
    let cs = chars_of(s);
    let n = cs.len();
    let mut i: usize = 0;
    assert(cs@.subrange(0, n as int) =~= cs@);
    while i < n && cs[i] == c
        invariant
            i <= n,
            n == cs@.len(),
            trim_start(cs@.subrange(i as int, n as int), c) == trim_start(cs@, c),
        decreases n - i,
    {
        proof {
            assert(cs@.subrange(i as int, n as int).drop_first() =~= cs@.subrange(i + 1, n as int));
        }
        i += 1;
    }
    proof {
        assert(trim_start(cs@.subrange(i as int, n as int), c) == cs@.subrange(i as int, n as int));
    }
    let mut j: usize = n;
    while j > i && cs[j - 1] == c
        invariant
            i <= j <= n,
            n == cs@.len(),
            trim_end(cs@.subrange(i as int, j as int), c) == trim_end(cs@.subrange(i as int, n as int), c),
        decreases j,
    {
        proof {
            assert(cs@.subrange(i as int, j as int).drop_last() =~= cs@.subrange(i as int, j - 1));
        }
        j -= 1;
    }
    proof {
        assert(trim_end(cs@.subrange(i as int, j as int), c) == cs@.subrange(i as int, j as int));
    }
    text_of(&cs, i, j)
}

/// `Path::file_name`: the last component of a path, if it has one, as text.
/// Which part of the text that is depends on the platform's separators, so
/// nothing is claimed of it.
#[verifier::external_body]
fn path_file_name(name: &str) -> (r: Option<String>) {
    match std::path::Path::new(name).file_name() {
        Some(f) => Some(f.display().to_string()),
        None => None,
    }
}

/// The name a file name gives a workflow: without dots, then without
/// underscores, at either end.
pub open spec fn clean_name(f: Seq<char>) -> Seq<char> {
    trimmed(trimmed(f, '.'), '_')
}

/// Whether renaming to the file name `f` succeeds: there is a file name, and
/// no workflow of the cleaned name is stored.
pub open spec fn rename_ok(v: EditView, f: Option<Seq<char>>) -> bool {
    match f {
        Some(f) => !v.store.contains_key(clean_name(f)),
        None => false,
    }
}

/// The state after renaming the workflow being edited to the file name `f`:
/// the stored version, if any, moves to the cleaned name, which becomes the
/// name being edited. A refused rename changes nothing.
pub open spec fn renamed(v: EditView, f: Option<Seq<char>>) -> EditView {
    if rename_ok(v, f) {
        let t = clean_name(f.unwrap());
        EditView {
            store: if v.store.contains_key(v.editing) {
                v.store.remove(v.editing).insert(t, v.store[v.editing])
            } else {
                v.store
            },
            editing: t,
            ..v
        }
    } else {
        v
    }
}

/// The name an imported workflow is stored under: the file's stem, unless it
/// is empty or taken, in which case the stem, a dash and the time stamp.
pub open spec fn import_name(stem: Seq<char>, taken: bool, stamp: Seq<char>) -> Seq<char> {
    if stem.len() == 0 || taken {
        stem + seq!['-'] + stamp
    } else {
        stem
    }
}

impl WorkflowState {
    /// Renames the workflow being edited to the file name `file_name` (see
    /// [`renamed`]).
    pub fn rename_to(&mut self, file_name: Option<String>) -> (r: Result<(), EditError>)
        ensures
            final(self)@ == renamed(old(self)@, file_name.deep_view()),
            r is Ok == rename_ok(old(self)@, file_name.deep_view()),
            r matches Err(EditError::InvalidName) <==> file_name is None,
            r matches Err(EditError::Exists(t)) ==> t@ == clean_name(file_name.deep_view().unwrap()),
    {
        match file_name {
            None => Err(EditError::InvalidName),
            Some(f) => {
                let once = trim_char(f.as_str(), '.');
                let name = trim_char(once.as_str(), '_');
                if self.store.contains(name.as_str()) {
                    return Err(EditError::Exists(name));
                }
                if self.store.contains(self.editing.as_str()) {
                    self.store.rename(self.editing.as_str(), name.as_str());
                }
                self.editing = name;
                Ok(())
            },
        }
    }

    /// Renames the workflow being edited to the name asked for in
    /// `renaming`, which is cleared. Nothing else happens when no name is
    /// asked for or it is the current one; otherwise the file name of the
    /// requested name (which the platform decides) is used as
    /// [`rename_to`](Self::rename_to) says.
    pub fn rename(&mut self) -> (r: Result<(), EditError>)
        ensures
            final(self)@.renaming is None,
            ({
                let w = EditView { renaming: None, ..old(self)@ };
                match old(self)@.renaming {
                    Some(n) => if n == old(self)@.editing {
                        final(self)@ == w && r is Ok
                    } else {
                        exists|f: Option<Seq<char>>|
                            final(self)@ == renamed(w, f) && (r is Ok) == rename_ok(w, f)
                    },
                    None => final(self)@ == w && r is Ok,
                }
            }),
    {
        let requested = match &self.renaming {
            Some(n) => Some(n.clone()),
            None => None,
        };
        self.renaming = None;
        match requested {
            None => Ok(()),
            Some(n) => {
                if same_text(self.editing.as_str(), n.as_str()) {
                    return Ok(());
                }
                let f = path_file_name(n.as_str());
                let r = self.rename_to(f);
                assert(self@ == renamed(EditView { renaming: None, ..old(self)@ }, f.deep_view()));
                r
            },
        }
    }

    /// Stores an imported workflow and opens it at time `now`: it is stored
    /// under the file's `stem`, or, when that is empty or taken, under the
    /// stem, a dash and `timestamp` (see [`import_name`]). Its saved version
    /// is then the default graph, so that it counts as changed.
    pub fn import_graph(&mut self, stem: &str, timestamp: &str, data: ShadowGraph, now: u64)
        requires
            old(self).switch_count < usize::MAX,
        ensures
            ({
                let name = import_name(stem@, old(self)@.store.contains_key(stem@), timestamp@);
                final(self)@ == (EditView {
                    baseline: old(self)@.default_graph,
                    ..switched(EditView { store: old(self)@.store.insert(name, data@), ..old(self)@ }, name, now)
                })
            }),
    {
        let taken = self.store.contains(stem);
        let name = if stem.is_empty() || taken {
            let mut n = stem.to_owned();
            let dash = "-";
            proof {
                reveal_strlit("-");
            }
            n.append(dash);
            n.append(timestamp);
            n
        } else {
            stem.to_owned()
        };
        assert(name@ == import_name(stem@, old(self)@.store.contains_key(stem@), timestamp@));
        self.store.put(name.as_str(), data);
        self.switch(name.as_str(), now);
        self.baseline = self.default_graph.duplicate();
    }
}


/// After an edit there is nothing to redo.
pub proof fn law_edit_clears_redo(v: EditView, g: GraphView, now: u64)
    ensures
        stack_of(recorded(v, g, now).redo, v.editing).len() == 0,
{
}

/// Undoing an edit that changed the graph brings back the graph and time
/// before it, and the edit can then be redone.
pub proof fn law_undo_reverts_edit(v: EditView, g: GraphView, now: u64)
    requires
        g != v.shadow,
    ensures
        undone(recorded(v, g, now)).shadow == v.shadow,
        undone(recorded(v, g, now)).modtime == v.modtime,
        undone(recorded(v, g, now)).frozen,
        stack_of(undone(recorded(v, g, now)).redo, v.editing) == seq![(now, g)],
{
    let w = recorded(v, g, now);
    let u = stack_of(v.undo, v.editing);
    let u1 = if recent(u, now) {
        u.drop_first()
    } else {
        u
    };
    let full = seq![(v.modtime, v.shadow)] + u1;
    let u2 = pruned(full);
    assert(full[0] == (v.modtime, v.shadow));
    assert(u2[0] == full[0]);
    assert(stack_of(w.undo, v.editing) == u2);
    assert(u2.len() > 0);
    assert(undo_stop(u2, g, 0) == 0);
    assert(stack_of(w.redo, v.editing) =~= Seq::<Snapshot>::empty());
    assert(seq![(now, g)] + Seq::<Snapshot>::empty() =~= seq![(now, g)]);
}

/// Redoing right after an undo brings back the graph and time before the
/// undo, and leaves the redo stack as it was.
pub proof fn law_redo_after_undo(v: EditView)
    requires
        stack_of(v.undo, v.editing).len() > 0,
    ensures
        redone(undone(v)).shadow == v.shadow,
        redone(undone(v)).modtime == v.modtime,
        stack_of(redone(undone(v)).redo, v.editing) == stack_of(v.redo, v.editing),
{
    let w = undone(v);
    let r = stack_of(v.redo, v.editing);
    assert(stack_of(w.redo, v.editing) == seq![(v.modtime, v.shadow)] + r);
    assert((seq![(v.modtime, v.shadow)] + r).drop_first() =~= r);
}

/// Undoing right after a redo brings back the graph and time before the
/// redo, and leaves the undo stack as it was, when the redone graph differs
/// from the one it replaced.
pub proof fn law_undo_after_redo(v: EditView)
    requires
        stack_of(v.redo, v.editing).len() > 0,
        stack_of(v.redo, v.editing)[0].1 != v.shadow,
    ensures
        undone(redone(v)).shadow == v.shadow,
        undone(redone(v)).modtime == v.modtime,
        stack_of(undone(redone(v)).undo, v.editing) == stack_of(v.undo, v.editing),
{
    let w = redone(v);
    let u = stack_of(v.undo, v.editing);
    let u2 = seq![(v.modtime, v.shadow)] + u;
    assert(stack_of(w.undo, v.editing) == u2);
    assert(undo_stop(u2, w.shadow, 0) == 0);
    assert(u2.skip(1) =~= u);
}

/// Leaving a workflow and coming back to it resumes the unsaved version
/// where it was, with its undo stack as it was.
pub proof fn law_switch_back(v: EditView, other: Seq<char>, t1: u64, t2: u64)
    requires
        other != v.editing,
    ensures
        switched(switched(v, other, t1), v.editing, t2).editing == v.editing,
        switched(switched(v, other, t1), v.editing, t2).shadow == v.shadow,
        switched(switched(v, other, t1), v.editing, t2).modtime == v.modtime,
        stack_of(switched(switched(v, other, t1), v.editing, t2).undo, v.editing) == stack_of(
            v.undo,
            v.editing,
        ),
{
    let a = v.editing;
    let w = switched(v, other, t1);
    let pushed = seq![(v.modtime, v.shadow)] + stack_of(v.undo, a);
    assert(stack_of(w.undo, a) == pushed);
    let x = switched(w, a, t2);
    let undo1 = w.undo.insert(other, seq![(w.modtime, w.shadow)] + stack_of(w.undo, other));
    assert(stack_of(undo1, a) == pushed);
    assert(pushed.drop_first() =~= stack_of(v.undo, a));
}

/// Editing a workflow with nothing to undo, undoing the edit and redoing it
/// gives back the edited graph, with one edit to undo and none to redo.
pub proof fn law_edit_undo_redo_round_trip(v: EditView, g: GraphView, now: u64)
    requires
        stack_of(v.undo, v.editing).len() == 0,
        g != v.shadow,
    ensures
        redone(undone(recorded(v, g, now))).shadow == g,
        stack_of(redone(undone(recorded(v, g, now))).undo, v.editing).len() == 1,
        stack_of(redone(undone(recorded(v, g, now))).redo, v.editing).len() == 0,
{
    let w = recorded(v, g, now);
    let u = stack_of(v.undo, v.editing);
    assert(!recent(u, now));
    let full = seq![(v.modtime, v.shadow)] + u;
    assert(full =~= seq![(v.modtime, v.shadow)]);
    assert(pruned(full) == full);
    assert(stack_of(w.undo, v.editing) == full);
    assert(stack_of(w.redo, v.editing) =~= Seq::<Snapshot>::empty());
    assert(undo_stop(full, g, 0) == 0);
    let x = undone(w);
    assert(stack_of(x.undo, v.editing) =~= Seq::<Snapshot>::empty());
    assert(stack_of(x.redo, v.editing) =~= seq![(now, g)]);
    let y = redone(x);
    assert(stack_of(y.redo, v.editing) =~= Seq::<Snapshot>::empty());
}

} // verus!

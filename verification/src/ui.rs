//! The state of the editor that is not drawing: its panes, its events and the
//! queue they wait in, and its keyboard shortcuts.
use vstd::prelude::*;

use crate::graph::{GraphId, InPinId, OutPinId};

verus! {

/// The panes of the main window.
#[derive(Debug, Clone, Copy, PartialEq, Eq, Structural)]
pub enum Pane {
    Settings,
    Navigator,
    Chat,
    Logs,
    Tools,
    Workflow,
    Messages,
    Outputs,
}

/// The title of each pane's tab.
pub open spec fn pane_title(p: Pane) -> Seq<char> {
    match p {
        Pane::Settings => "Settings"@,
        Pane::Navigator => "Session"@,
        Pane::Chat => "Chat"@,
        Pane::Logs => "Logs"@,
        Pane::Tools => "Tools"@,
        Pane::Workflow => "Workflow"@,
        Pane::Messages => "Lineage"@,
        Pane::Outputs => "Outputs"@,
    }
}

impl Pane {
    /// The title of the pane's tab.
    pub fn tab_title(&self) -> (r: &'static str)
        ensures
            r@ == pane_title(*self),
    {
        match self {
            Pane::Settings => "Settings",
            Pane::Navigator => "Session",
            Pane::Chat => "Chat",
            Pane::Logs => "Logs",
            Pane::Tools => "Tools",
            Pane::Workflow => "Workflow",
            Pane::Messages => "Lineage",
            Pane::Outputs => "Outputs",
        }
    }
}

/// Which help is shown.
#[derive(Debug, Clone, Copy, PartialEq, Eq, Structural)]
pub enum ShowHelp {
    All,
    Workflow,
}

/// A pin of a node, input or output.
#[derive(Debug, Clone, Copy, PartialEq, Eq, Structural)]
pub enum AnyPin {
    Out(OutPinId),
    In(InPinId),
}

impl AnyPin {
    pub fn output(node: usize, output: usize) -> (r: Self)
        ensures
            r == AnyPin::Out(OutPinId { node, output }),
    {
        AnyPin::Out(OutPinId { node, output })
    }

    pub fn input(node: usize, input: usize) -> (r: Self)
        ensures
            r == AnyPin::In(InPinId { node, input }),
    {
        AnyPin::In(InPinId { node, input })
    }
}

/// What the editor is asked to do.
#[derive(Debug, Clone, PartialEq, Eq)]
pub enum AppEvent {
    EnterSubgraph(usize),
    LeaveSubgraph(usize),
    DisableNode(GraphId, usize),
    /// Removes a pin from a node of a graph.
    PinRemoved(GraphId, AnyPin),
    /// Swaps the wires of two input pins of a graph.
    SwapInputs(GraphId, InPinId, InPinId),
    /// Swaps the wires of two output pins of a graph.
    SwapOutputs(GraphId, OutPinId, OutPinId),
    /// The user asked to run the current workflow.
    UserRunWorkflow,
    SetPrompt(String),
    Freeze(Option<bool>),
    Undo,
    Redo,
    ProgressBegin(u128, usize),
    ProgressAdd(u128, usize),
    ProgressEnd(u128),
}

/// How urgent an event is: navigation comes after other events, and a run
/// (or a new prompt) after navigation.
pub open spec fn event_rank(e: AppEvent) -> int {
    match e {
        AppEvent::EnterSubgraph(_) | AppEvent::LeaveSubgraph(_) => -100,
        AppEvent::UserRunWorkflow | AppEvent::SetPrompt(_) => -200,
        _ => 0,
    }
}

impl AppEvent {
    pub fn priority(&self) -> (r: i64)
        ensures
            r == event_rank(*self),
    {
        match self {
            AppEvent::EnterSubgraph(_) | AppEvent::LeaveSubgraph(_) => -100,
            AppEvent::UserRunWorkflow | AppEvent::SetPrompt(_) => -200,
            _ => 0,
        }
    }
}

/// The events waiting to be handled, each with the number it was queued
/// under: the most urgent is handled first, and of equally urgent ones the
/// one queued first.
pub struct EventQueue {
    items: Vec<(AppEvent, u64)>,
    next: u64,
}

/// Whether entry `a` is handled before entry `b`.
pub open spec fn handled_before(a: (AppEvent, u64), b: (AppEvent, u64)) -> bool {
    event_rank(a.0) > event_rank(b.0) || (event_rank(a.0) == event_rank(b.0) && a.1 <= b.1)
}

impl EventQueue {
    /// The entries waiting, each with the number it was queued under.
    pub closed spec fn entries(self) -> Seq<(AppEvent, u64)> {
        self.items@
    }

    /// The number the next event is queued under.
    pub closed spec fn counter(self) -> u64 {
        self.next
    }

    /// Every waiting entry was queued under a number below the counter, and
    /// no two share one.
    pub closed spec fn wf(self) -> bool {
        &&& forall|i: int| 0 <= i < self.items@.len() ==> (#[trigger] self.items@[i]).1 < self.next
        &&& forall|i: int, j: int|
            0 <= i < j < self.items@.len() ==> (#[trigger] self.items@[i]).1 != (#[trigger] self.items@[j]).1
    }

    pub fn new() -> (r: Self)
        ensures
            r.wf(),
            r.entries().len() == 0,
            r.counter() == 0,
    {
        EventQueue { items: Vec::new(), next: 0 }
    }

    pub fn len(&self) -> (r: usize)
        ensures
            r == self.entries().len(),
    {
        self.items.len()
    }

    /// Queues an event.
    pub fn insert(&mut self, value: AppEvent)
        requires
            old(self).wf(),
            old(self).counter() < u64::MAX,
        ensures
            final(self).wf(),
            final(self).entries() == old(self).entries().push((value, old(self).counter())),
            final(self).counter() == old(self).counter() + 1,
    {
        let n = self.next;
        self.items.push((value, n));
        self.next = n + 1;
        proof {
            assert forall|i: int, j: int|
                0 <= i < j < self.items@.len() implies (#[trigger] self.items@[i]).1 != (#[trigger] self.items@[j]).1 by {
                if j == self.items@.len() - 1 {
                    assert(self.items@[i].1 < n);
                }
            }
        }
    }

    /// Takes the event to handle next: the most urgent, and of equally urgent
    /// ones the one queued first.
    pub fn pop(&mut self) -> (r: Option<AppEvent>)
        requires
            old(self).wf(),
        ensures
            final(self).wf(),
            final(self).counter() == old(self).counter(),
            old(self).entries().len() == 0 ==> r is None && final(self).entries() == old(self).entries(),
            old(self).entries().len() > 0 ==> exists|i: int|
                0 <= i < old(self).entries().len() && (forall|j: int|
                    0 <= j < old(self).entries().len() ==> handled_before(
                        old(self).entries()[i],
                        #[trigger] old(self).entries()[j],
                    )) && r == Some(old(self).entries()[i].0) && final(self).entries() == old(
                    self,
                ).entries().remove(i),
    {
        if self.items.len() == 0 {
            return None;
        }
        let mut best: usize = 0;
        let mut i: usize = 1;
        while i < self.items.len()
            invariant
                1 <= i <= self.items@.len(),
                best < i,
                forall|j: int| 0 <= j < i ==> handled_before(self.items@[best as int], #[trigger] self.items@[j]),
            decreases self.items@.len() - i,
        {
            let pi = self.items[i].0.priority();
            let pb = self.items[best].0.priority();
            if pi > pb || (pi == pb && self.items[i].1 <= self.items[best].1) {
                best = i;
            }
            i += 1;
        }
        let ghost before = self.items@;
        let (event, _) = self.items.remove(best);
        proof {
            assert forall|a: int, b: int|
                0 <= a < b < self.items@.len() implies (#[trigger] self.items@[a]).1 != (#[trigger] self.items@[b]).1 by {
                let a2 = if a < best { a } else { a + 1 };
                let b2 = if b < best { b } else { b + 1 };
                assert(self.items@[a] == before[a2]);
                assert(self.items@[b] == before[b2]);
            }
            assert forall|a: int| 0 <= a < self.items@.len() implies (#[trigger] self.items@[a]).1 < self.next by {
                let a2 = if a < best { a } else { a + 1 };
                assert(self.items@[a] == before[a2]);
            }
        }
        Some(event)
    }
}

/// Two entries never tie: of two distinct entries one is handled first.
pub proof fn law_queue_order_total(a: (AppEvent, u64), b: (AppEvent, u64))
    requires
        a.1 != b.1,
    ensures
        handled_before(a, b) != handled_before(b, a),
{
}

/// Of two equally urgent events, the one queued first is handled first.
pub proof fn law_queue_fifo(q: EventQueue, i: int, j: int)
    requires
        q.wf(),
        0 <= i < j < q.entries().len(),
        event_rank(q.entries()[i].0) == event_rank(q.entries()[j].0),
        q.entries()[i].1 < q.entries()[j].1,
    ensures
        handled_before(q.entries()[i], q.entries()[j]),
        !handled_before(q.entries()[j], q.entries()[i]),
{
}

/// Pops come out in handling order: the entry a pop takes (the one handled
/// before all, see [`EventQueue::pop`]) is handled before whatever a later
/// pop takes from the entries left.
pub proof fn law_pops_in_order(e: Seq<(AppEvent, u64)>, i: int, j: int)
    requires
        0 <= i < e.len(),
        forall|k: int| 0 <= k < e.len() ==> handled_before(e[i], #[trigger] e[k]),
        0 <= j < e.remove(i).len(),
    ensures
        handled_before(e[i], e.remove(i)[j]),
{
    if j < i {
        assert(e.remove(i)[j] == e[j]);
    } else {
        assert(e.remove(i)[j] == e[j + 1]);
    }
}

/// Whether `picks` are the indices successive pops take from `e`: each the
/// entry handled before all others still waiting.
pub open spec fn pop_run(e: Seq<(AppEvent, u64)>, picks: Seq<int>) -> bool
    decreases picks.len(),
{
    if picks.len() == 0 {
        true
    } else {
        let i = picks[0];
        &&& 0 <= i < e.len()
        &&& forall|k: int| 0 <= k < e.len() ==> handled_before(e[i], #[trigger] e[k])
        &&& pop_run(e.remove(i), picks.drop_first())
    }
}

/// The entries successive pops take, in the order they are taken.
pub open spec fn popped(e: Seq<(AppEvent, u64)>, picks: Seq<int>) -> Seq<(AppEvent, u64)>
    decreases picks.len(),
{
    if picks.len() == 0 {
        Seq::empty()
    } else {
        seq![e[picks[0]]] + popped(e.remove(picks[0]), picks.drop_first())
    }
}

/// What successive pops take comes from the entries waiting.
proof fn lemma_popped_from(e: Seq<(AppEvent, u64)>, picks: Seq<int>)
    requires
        pop_run(e, picks),
    ensures
        popped(e, picks).len() == picks.len(),
        forall|a: int| 0 <= a < picks.len() ==> e.contains(#[trigger] popped(e, picks)[a]),
    decreases picks.len(),
{
    if picks.len() > 0 {
        let i = picks[0];
        let rest = e.remove(i);
        lemma_popped_from(rest, picks.drop_first());
        assert forall|a: int| 0 <= a < picks.len() implies e.contains(#[trigger] popped(e, picks)[a]) by {
            if a == 0 {
                assert(popped(e, picks)[0] == e[i]);
            } else {
                let x = popped(e, picks)[a];
                assert(x == popped(rest, picks.drop_first())[a - 1]);
                let j = choose|j: int| 0 <= j < rest.len() && rest[j] == x;
                if j < i {
                    assert(e[j] == x);
                } else {
                    assert(e[j + 1] == x);
                }
            }
        }
    }
}

/// Popping a queue again and again gives its events in handling order: each
/// event taken is handled before every event taken after it (the more urgent
/// first, and of equally urgent ones the one queued first).
pub proof fn law_pops_sorted(e: Seq<(AppEvent, u64)>, picks: Seq<int>)
    requires
        pop_run(e, picks),
    ensures
        forall|a: int, b: int|
            0 <= a < b < picks.len() ==> handled_before(#[trigger] popped(e, picks)[a], #[trigger] popped(e, picks)[b]),
    decreases picks.len(),
{
    if picks.len() > 0 {
        let i = picks[0];
        let rest = e.remove(i);
        let tail = picks.drop_first();
        law_pops_sorted(rest, tail);
        lemma_popped_from(rest, tail);
        assert forall|a: int, b: int| 0 <= a < b < picks.len() implies handled_before(
            #[trigger] popped(e, picks)[a],
            #[trigger] popped(e, picks)[b],
        ) by {
            assert(popped(e, picks)[b] == popped(rest, tail)[b - 1]);
            if a == 0 {
                let x = popped(rest, tail)[b - 1];
                assert(rest.contains(x));
                let j = choose|j: int| 0 <= j < rest.len() && rest[j] == x;
                law_pops_in_order(e, i, j);
            } else {
                assert(popped(e, picks)[a] == popped(rest, tail)[a - 1]);
            }
        }
    }
}

/// The modifier keys of a shortcut.
#[derive(Debug, Clone, Copy, PartialEq, Eq, Structural)]
pub struct Modifiers {
    pub ctrl: bool,
    pub shift: bool,
}

/// The keys that shortcuts use.
#[derive(Debug, Clone, Copy, PartialEq, Eq, Structural)]
pub enum Key {
    A,
    C,
    D,
    Q,
    R,
    V,
    X,
    Z,
    Backspace,
    Delete,
    Questionmark,
    Space,
}

/// A key with its modifiers.
#[derive(Debug, Clone, Copy, PartialEq, Eq, Structural)]
pub struct KeyboardShortcut {
    pub modifiers: Modifiers,
    pub logical_key: Key,
}

/// The keyboard shortcuts of the editor.
#[derive(Debug, Clone, Copy, PartialEq, Eq, Structural)]
pub enum Shortcut {
    Quit,
    Cut,
    Copy,
    Paste,
    LeaveSubgraph,
    RunWorkflow,
    Help,
    FreezeWorkflow,
    Undo,
    Redo,
    SelectAll,
    SelectNone,
    DisableNode,
    RemoveNode,
}

/// The key of each shortcut.
pub open spec fn key_of(s: Shortcut) -> KeyboardShortcut {
    match s {
        Shortcut::Quit => KeyboardShortcut { modifiers: Modifiers { ctrl: true, shift: false }, logical_key: Key::Q },
        Shortcut::Cut => KeyboardShortcut { modifiers: Modifiers { ctrl: true, shift: false }, logical_key: Key::X },
        Shortcut::Copy => KeyboardShortcut { modifiers: Modifiers { ctrl: true, shift: false }, logical_key: Key::C },
        Shortcut::Paste => KeyboardShortcut { modifiers: Modifiers { ctrl: true, shift: false }, logical_key: Key::V },
        Shortcut::LeaveSubgraph => KeyboardShortcut { modifiers: Modifiers { ctrl: false, shift: false }, logical_key: Key::Backspace },
        Shortcut::RunWorkflow => KeyboardShortcut { modifiers: Modifiers { ctrl: true, shift: false }, logical_key: Key::R },
        Shortcut::Help => KeyboardShortcut { modifiers: Modifiers { ctrl: false, shift: true }, logical_key: Key::Questionmark },
        Shortcut::FreezeWorkflow => KeyboardShortcut { modifiers: Modifiers { ctrl: false, shift: false }, logical_key: Key::Space },
        Shortcut::Undo => KeyboardShortcut { modifiers: Modifiers { ctrl: true, shift: false }, logical_key: Key::Z },
        Shortcut::Redo => KeyboardShortcut { modifiers: Modifiers { ctrl: true, shift: true }, logical_key: Key::Z },
        Shortcut::SelectAll => KeyboardShortcut { modifiers: Modifiers { ctrl: true, shift: false }, logical_key: Key::A },
        Shortcut::SelectNone => KeyboardShortcut { modifiers: Modifiers { ctrl: true, shift: false }, logical_key: Key::D },
        Shortcut::DisableNode => KeyboardShortcut { modifiers: Modifiers { ctrl: false, shift: false }, logical_key: Key::D },
        Shortcut::RemoveNode => KeyboardShortcut { modifiers: Modifiers { ctrl: false, shift: false }, logical_key: Key::Delete },
    }
}

/// Every shortcut, in the order they are declared.
pub open spec fn all_shortcuts() -> Seq<Shortcut> {
    seq![
        Shortcut::Quit,
        Shortcut::Cut,
        Shortcut::Copy,
        Shortcut::Paste,
        Shortcut::LeaveSubgraph,
        Shortcut::RunWorkflow,
        Shortcut::Help,
        Shortcut::FreezeWorkflow,
        Shortcut::Undo,
        Shortcut::Redo,
        Shortcut::SelectAll,
        Shortcut::SelectNone,
        Shortcut::DisableNode,
        Shortcut::RemoveNode,
    ]
}

impl Shortcut {
    pub fn key(&self) -> (r: KeyboardShortcut)
        ensures
            r == key_of(*self),
    {
        match self {
            Shortcut::Quit => KeyboardShortcut { modifiers: Modifiers { ctrl: true, shift: false }, logical_key: Key::Q },
            Shortcut::Cut => KeyboardShortcut { modifiers: Modifiers { ctrl: true, shift: false }, logical_key: Key::X },
            Shortcut::Copy => KeyboardShortcut { modifiers: Modifiers { ctrl: true, shift: false }, logical_key: Key::C },
            Shortcut::Paste => KeyboardShortcut { modifiers: Modifiers { ctrl: true, shift: false }, logical_key: Key::V },
            Shortcut::LeaveSubgraph => KeyboardShortcut { modifiers: Modifiers { ctrl: false, shift: false }, logical_key: Key::Backspace },
            Shortcut::RunWorkflow => KeyboardShortcut { modifiers: Modifiers { ctrl: true, shift: false }, logical_key: Key::R },
            Shortcut::Help => KeyboardShortcut { modifiers: Modifiers { ctrl: false, shift: true }, logical_key: Key::Questionmark },
            Shortcut::FreezeWorkflow => KeyboardShortcut { modifiers: Modifiers { ctrl: false, shift: false }, logical_key: Key::Space },
            Shortcut::Undo => KeyboardShortcut { modifiers: Modifiers { ctrl: true, shift: false }, logical_key: Key::Z },
            Shortcut::Redo => KeyboardShortcut { modifiers: Modifiers { ctrl: true, shift: true }, logical_key: Key::Z },
            Shortcut::SelectAll => KeyboardShortcut { modifiers: Modifiers { ctrl: true, shift: false }, logical_key: Key::A },
            Shortcut::SelectNone => KeyboardShortcut { modifiers: Modifiers { ctrl: true, shift: false }, logical_key: Key::D },
            Shortcut::DisableNode => KeyboardShortcut { modifiers: Modifiers { ctrl: false, shift: false }, logical_key: Key::D },
            Shortcut::RemoveNode => KeyboardShortcut { modifiers: Modifiers { ctrl: false, shift: false }, logical_key: Key::Delete },
        }
    }

    /// Every shortcut, in the order they are declared.
    pub fn all() -> (r: Vec<Shortcut>)
        ensures
            r@ == all_shortcuts(),
    {
        let r = vec![
            Shortcut::Quit,
            Shortcut::Cut,
            Shortcut::Copy,
            Shortcut::Paste,
            Shortcut::LeaveSubgraph,
            Shortcut::RunWorkflow,
            Shortcut::Help,
            Shortcut::FreezeWorkflow,
            Shortcut::Undo,
            Shortcut::Redo,
            Shortcut::SelectAll,
            Shortcut::SelectNone,
            Shortcut::DisableNode,
            Shortcut::RemoveNode,
        ];
        assert(r@ =~= all_shortcuts());
        r
    }
}

/// No two shortcuts share a key.
pub proof fn law_shortcuts_distinct(a: Shortcut, b: Shortcut)
    requires
        a != b,
    ensures
        key_of(a) != key_of(b),
{
}

/// What the graph viewer does in response to the input of one frame.
#[derive(Debug, Clone, PartialEq, Eq)]
pub enum ViewerAction {
    /// Copy the selected nodes.
    Copy,
    /// Paste what the input holds.
    Paste,
    SelectAll,
    SelectNone,
    DisableSelected,
    RemoveSelected,
    /// Disable (or enable) the node under the pointer.
    DisableNode(usize),
    /// Remove the node under the pointer.
    RemoveNode(usize),
    /// Queue an event.
    Send(AppEvent),
}

/// What one frame of input holds for the graph viewer.
#[derive(Debug, Clone, Copy, PartialEq, Eq, Structural)]
pub struct ViewerInput {
    pub copy: bool,
    pub cut: bool,
    pub back_button: bool,
}

/// Whether a shortcut was pressed in the frame.
pub open spec fn pressed_has(pressed: Seq<Shortcut>, s: Shortcut) -> bool {
    pressed.contains(s)
}

/// A single action when the condition holds, else none.
pub open spec fn when(cond: bool, a: ViewerAction) -> Seq<ViewerAction> {
    if cond {
        seq![a]
    } else {
        Seq::empty()
    }
}

/// The actions on the run shortcuts, while no run is going.
pub open spec fn run_actions(running: bool, pressed: Seq<Shortcut>) -> Seq<ViewerAction> {
    if !running {
        when(pressed_has(pressed, Shortcut::RunWorkflow), ViewerAction::Send(AppEvent::UserRunWorkflow))
            + when(pressed_has(pressed, Shortcut::FreezeWorkflow), ViewerAction::Send(AppEvent::Freeze(None)))
            + when(pressed_has(pressed, Shortcut::Redo), ViewerAction::Send(AppEvent::Redo))
            + when(pressed_has(pressed, Shortcut::Undo), ViewerAction::Send(AppEvent::Undo))
    } else {
        Seq::empty()
    }
}

/// The actions on the selection shortcuts.
pub open spec fn select_actions(pressed: Seq<Shortcut>) -> Seq<ViewerAction> {
    when(pressed_has(pressed, Shortcut::SelectAll), ViewerAction::SelectAll) + when(
        pressed_has(pressed, Shortcut::SelectNone),
        ViewerAction::SelectNone,
    )
}

/// The editing actions, while the graph can be edited: paste, cut (copy
/// then remove), disable and remove.
pub open spec fn edit_actions(running: bool, frozen: bool, pressed: Seq<Shortcut>, input: ViewerInput) -> Seq<ViewerAction> {
    if !frozen && !running {
        seq![ViewerAction::Paste] + when(input.cut, ViewerAction::Copy) + when(
            input.cut,
            ViewerAction::RemoveSelected,
        ) + when(pressed_has(pressed, Shortcut::DisableNode), ViewerAction::DisableSelected) + when(
            pressed_has(pressed, Shortcut::RemoveNode),
            ViewerAction::RemoveSelected,
        )
    } else {
        Seq::empty()
    }
}

/// The actions of one frame, in order: copy on a copy event; the run
/// shortcuts; the selection shortcuts; the editing actions; copy again on a
/// copy event; and leaving the subgraph on its shortcut or the back button.
pub open spec fn viewer_actions(running: bool, frozen: bool, pressed: Seq<Shortcut>, input: ViewerInput) -> Seq<ViewerAction> {
    when(input.copy, ViewerAction::Copy) + run_actions(running, pressed) + select_actions(pressed)
        + edit_actions(running, frozen, pressed, input) + when(input.copy, ViewerAction::Copy) + when(
        pressed_has(pressed, Shortcut::LeaveSubgraph) || input.back_button,
        ViewerAction::Send(AppEvent::LeaveSubgraph(1)),
    )
}

/// The run and history shortcuts of the viewer: while no run is going, the
/// actions of a frame start a run exactly when the run shortcut was pressed,
/// toggle freezing exactly when the freeze shortcut was pressed, send a redo
/// exactly when the redo shortcut was pressed and an undo exactly when the undo
/// shortcut was pressed; while a run is going they send none of these.
pub proof fn law_viewer_run_shortcuts(running: bool, frozen: bool, pressed: Seq<Shortcut>, input: ViewerInput)
    ensures
        viewer_actions(running, frozen, pressed, input).contains(ViewerAction::Send(AppEvent::UserRunWorkflow))
            <==> (!running && pressed_has(pressed, Shortcut::RunWorkflow)),
        viewer_actions(running, frozen, pressed, input).contains(ViewerAction::Send(AppEvent::Freeze(None)))
            <==> (!running && pressed_has(pressed, Shortcut::FreezeWorkflow)),
        viewer_actions(running, frozen, pressed, input).contains(ViewerAction::Send(AppEvent::Redo))
            <==> (!running && pressed_has(pressed, Shortcut::Redo)),
        viewer_actions(running, frozen, pressed, input).contains(ViewerAction::Send(AppEvent::Undo))
            <==> (!running && pressed_has(pressed, Shortcut::Undo)),
{
    broadcast use vstd::seq_lib::lemma_seq_concat_contains_all_elements, vstd::seq_lib::lemma_seq_empty_contains_nothing;

    assert forall|c: bool, a: ViewerAction, x: ViewerAction| #[trigger] when(c, a).contains(x) <==> (c && a == x) by {
        if c {
            assert(when(c, a)[0] == a);
        }
    }
    let redo = ViewerAction::Send(AppEvent::Redo);
    let undo = ViewerAction::Send(AppEvent::Undo);
    let run = ViewerAction::Send(AppEvent::UserRunWorkflow);
    let freeze = ViewerAction::Send(AppEvent::Freeze(None));
    assert(!seq![ViewerAction::Paste].contains(run));
    assert(!seq![ViewerAction::Paste].contains(freeze));
    assert(run_actions(running, pressed).contains(run) <==> (!running && pressed_has(pressed, Shortcut::RunWorkflow)));
    assert(run_actions(running, pressed).contains(freeze) <==> (!running && pressed_has(pressed, Shortcut::FreezeWorkflow)));
    assert(!select_actions(pressed).contains(run) && !select_actions(pressed).contains(freeze));
    assert(!edit_actions(running, frozen, pressed, input).contains(run));
    assert(!edit_actions(running, frozen, pressed, input).contains(freeze));
    assert(seq![ViewerAction::Paste][0] == ViewerAction::Paste);
    assert(!seq![ViewerAction::Paste].contains(redo));
    assert(!seq![ViewerAction::Paste].contains(undo));
    assert(run_actions(running, pressed).contains(redo) <==> (!running && pressed_has(pressed, Shortcut::Redo)));
    assert(run_actions(running, pressed).contains(undo) <==> (!running && pressed_has(pressed, Shortcut::Undo)));
    assert(!select_actions(pressed).contains(redo) && !select_actions(pressed).contains(undo));
    assert(!edit_actions(running, frozen, pressed, input).contains(redo));
    assert(!edit_actions(running, frozen, pressed, input).contains(undo));
}

/// Whether the shortcut was pressed.
fn was_pressed(pressed: &Vec<Shortcut>, s: Shortcut) -> (r: bool)
    ensures
        r == pressed_has(pressed@, s),
{
    let mut i: usize = 0;
    while i < pressed.len()
        invariant
            i <= pressed@.len(),
            forall|j: int| 0 <= j < i ==> pressed@[j] != s,
        decreases pressed@.len() - i,
    {
        if pressed[i] == s {
            return true;
        }
        i += 1;
    }
    false
}

/// Appends the action when the condition holds.
fn push_if(out: &mut Vec<ViewerAction>, cond: bool, a: ViewerAction)
    ensures
        final(out)@ == old(out)@ + when(cond, a),
{
    if cond {
        out.push(a);
    }
    assert(final(out)@ =~= old(out)@ + when(cond, a));
}

/// Appends the actions on the run shortcuts.
fn push_run_actions(out: &mut Vec<ViewerAction>, running: bool, pressed: &Vec<Shortcut>)
    ensures
        final(out)@ == old(out)@ + run_actions(running, pressed@),
{
    let ghost start = out@;
    if !running {
        push_if(out, was_pressed(pressed, Shortcut::RunWorkflow), ViewerAction::Send(AppEvent::UserRunWorkflow));
        push_if(out, was_pressed(pressed, Shortcut::FreezeWorkflow), ViewerAction::Send(AppEvent::Freeze(None)));
        push_if(out, was_pressed(pressed, Shortcut::Redo), ViewerAction::Send(AppEvent::Redo));
        push_if(out, was_pressed(pressed, Shortcut::Undo), ViewerAction::Send(AppEvent::Undo));
    }
    assert(out@ =~= start + run_actions(running, pressed@));
}

/// Appends the actions on the selection shortcuts.
fn push_select_actions(out: &mut Vec<ViewerAction>, pressed: &Vec<Shortcut>)
    ensures
        final(out)@ == old(out)@ + select_actions(pressed@),
{
    let ghost start = out@;
    push_if(out, was_pressed(pressed, Shortcut::SelectAll), ViewerAction::SelectAll);
    push_if(out, was_pressed(pressed, Shortcut::SelectNone), ViewerAction::SelectNone);
    assert(out@ =~= start + select_actions(pressed@));
}

/// Appends the editing actions.
fn push_edit_actions(out: &mut Vec<ViewerAction>, running: bool, frozen: bool, pressed: &Vec<Shortcut>, input: ViewerInput)
    ensures
        final(out)@ == old(out)@ + edit_actions(running, frozen, pressed@, input),
{
    let ghost start = out@;
    if !frozen && !running {
        out.push(ViewerAction::Paste);
        push_if(out, input.cut, ViewerAction::Copy);
        push_if(out, input.cut, ViewerAction::RemoveSelected);
        push_if(out, was_pressed(pressed, Shortcut::DisableNode), ViewerAction::DisableSelected);
        push_if(out, was_pressed(pressed, Shortcut::RemoveNode), ViewerAction::RemoveSelected);
    }
    assert(out@ =~= start + edit_actions(running, frozen, pressed@, input));
}

/// The actions of one frame of input to the graph viewer; `running` and
/// `frozen` say whether a run is going and whether the graph is frozen.
pub fn viewer_shortcuts(running: bool, frozen: bool, pressed: &Vec<Shortcut>, input: ViewerInput) -> (r: Vec<ViewerAction>)
    ensures
        r@ == viewer_actions(running, frozen, pressed@, input),
{
    let mut out: Vec<ViewerAction> = Vec::new();
    push_if(&mut out, input.copy, ViewerAction::Copy);
    push_run_actions(&mut out, running, pressed);
    push_select_actions(&mut out, pressed);
    push_edit_actions(&mut out, running, frozen, pressed, input);
    push_if(&mut out, input.copy, ViewerAction::Copy);
    let leave = was_pressed(pressed, Shortcut::LeaveSubgraph) || input.back_button;
    push_if(&mut out, leave, ViewerAction::Send(AppEvent::LeaveSubgraph(1)));
    assert(Seq::<ViewerAction>::empty() + when(input.copy, ViewerAction::Copy) == when(input.copy, ViewerAction::Copy));
    out
}

/// The actions on the shortcuts pressed over node `node`: none while a run is
/// going or the graph is frozen; else disabling it, then removing it, each on
/// its shortcut.
pub open spec fn node_actions(running: bool, frozen: bool, pressed: Seq<Shortcut>, node: usize) -> Seq<ViewerAction> {
    if running || frozen {
        Seq::empty()
    } else {
        when(pressed_has(pressed, Shortcut::DisableNode), ViewerAction::DisableNode(node)) + when(
            pressed_has(pressed, Shortcut::RemoveNode),
            ViewerAction::RemoveNode(node),
        )
    }
}

/// The actions on the shortcuts pressed while the pointer is over node
/// `node`.
pub fn node_shortcuts(running: bool, frozen: bool, pressed: &Vec<Shortcut>, node: usize) -> (r: Vec<ViewerAction>)
    ensures
        r@ == node_actions(running, frozen, pressed@, node),
{
    let mut out: Vec<ViewerAction> = Vec::new();
    if running || frozen {
        return out;
    }
    push_if(&mut out, was_pressed(pressed, Shortcut::DisableNode), ViewerAction::DisableNode(node));
    push_if(&mut out, was_pressed(pressed, Shortcut::RemoveNode), ViewerAction::RemoveNode(node));
    assert(out@ =~= node_actions(running, frozen, pressed@, node));
    out
}

} // verus!

//! A branching chat history.
//!
//! Every message is an entry with an id and a link to its parent. A branch is a
//! name bound to the id of its last message; walking the parent links back from
//! there gives the conversation of that branch. The history is persistent: every
//! operation leaves its input untouched and hands back either the input itself
//! (`Cow::Borrowed`, nothing changed) or a new history (`Cow::Owned`).
use std::borrow::Cow;
use std::collections::BTreeSet;
use vstd::prelude::*;

use crate::collections::{
    branch_map, branches_get, branches_new, branches_pairs, branches_update, branches_without, entries_get, entries_new,
    entries_keys, entries_update, entries_without, entry_map,
};
use crate::ids::fresh_id;

verus! {

/// The content of a chat entry.
#[derive(Debug, Clone, PartialEq)]
pub enum ChatContent {
    /// A message of the conversation, as its JSON document.
    Message(serde_json::Value),
    /// A side conversation held in a single entry.
    Aside {
        automation: String,
        prompt: String,
        collapsed: bool,
        content: Vec<serde_json::Value>,
    },
    /// An error reported in place of a message.
    Error(String),
}

/// The mathematical value of a [`ChatContent`].
pub enum ContentView {
    Message(serde_json::Value),
    Aside {
        automation: Seq<char>,
        prompt: Seq<char>,
        collapsed: bool,
        content: Seq<serde_json::Value>,
    },
    Error(Seq<char>),
}

impl View for ChatContent {
    type V = ContentView;

    open spec fn view(&self) -> ContentView {
        match self {
            ChatContent::Message(m) => ContentView::Message(*m),
            ChatContent::Aside { automation, prompt, collapsed, content } => ContentView::Aside {
                automation: automation@,
                prompt: prompt@,
                collapsed: *collapsed,
                content: content@,
            },
            ChatContent::Error(e) => ContentView::Error(e@),
        }
    }
}

/// The content that a message or an error becomes.
pub open spec fn content_of_result(value: Result<serde_json::Value, Seq<char>>) -> ContentView {
    match value {
        Ok(m) => ContentView::Message(m),
        Err(e) => ContentView::Error(e),
    }
}

impl ChatContent {
    /// A message becomes a message entry and an error an error entry.
    pub fn from_result(value: Result<serde_json::Value, String>) -> (r: ChatContent)
        ensures
            r@ == content_of_result(
                match value {
                    Ok(m) => Ok(m),
                    Err(e) => Err(e@),
                },
            ),
    {
        match value {
            Ok(msg) => ChatContent::Message(msg),
            Err(err) => ChatContent::Error(err),
        }
    }

    /// A copy with the same value.
    pub fn duplicate(&self) -> (r: ChatContent)
        ensures
            r@ == self@,
    {
        match self {
            ChatContent::Message(m) => ChatContent::Message(m.clone()),
            ChatContent::Aside { automation, prompt, collapsed, content } => {
                let mut copy: Vec<serde_json::Value> = Vec::new();
                let mut i: usize = 0;
                while i < content.len()
                    invariant
                        i <= content@.len(),
                        copy@ == content@.subrange(0, i as int),
                    decreases content@.len() - i,
                {
                    copy.push(content[i].clone());
                    i += 1;
                }
                assert(copy@ == content@);
                ChatContent::Aside {
                    automation: automation.clone(),
                    prompt: prompt.clone(),
                    collapsed: *collapsed,
                    content: copy,
                }
            },
            ChatContent::Error(e) => ChatContent::Error(e.clone()),
        }
    }
}

/// One message of the history.
#[derive(Debug, Clone, PartialEq)]
pub struct ChatEntry {
    pub id: u128,
    pub parent: Option<u128>,
    /// For the last entry of a side conversation: the parent it hangs off.
    pub aside: Option<u128>,
    /// The branch the entry was written on; empty inside side conversations.
    pub branch: String,
    pub content: ChatContent,
}

/// The mathematical value of a [`ChatEntry`].
pub struct EntryView {
    pub id: u128,
    pub parent: Option<u128>,
    pub aside: Option<u128>,
    pub branch: Seq<char>,
    pub content: ContentView,
}

impl View for ChatEntry {
    type V = EntryView;

    open spec fn view(&self) -> EntryView {
        EntryView {
            id: self.id,
            parent: self.parent,
            aside: self.aside,
            branch: self.branch@,
            content: self.content@,
        }
    }
}

impl ChatEntry {
    /// A copy with the same value.
    pub fn duplicate(&self) -> (r: ChatEntry)
        ensures
            r@ == self@,
    {
        ChatEntry {
            id: self.id,
            parent: self.parent,
            aside: self.aside,
            branch: self.branch.clone(),
            content: self.content.duplicate(),
        }
    }
}

/// A branching conversation.
#[derive(Debug, Clone, PartialEq)]
pub struct ChatHistory {
    pub store: im::OrdMap<u128, ChatEntry>,
    pub branches: im::OrdMap<String, u128>,
    /// First message in iteration.
    pub base: Option<u128>,
    /// Name of the current branch.
    pub head: String,
}

/// The mathematical value of a [`ChatHistory`].
pub struct HistoryView {
    pub store: Map<u128, EntryView>,
    pub branches: Map<Seq<char>, u128>,
    pub base: Option<u128>,
    pub head: Seq<char>,
}

impl View for ChatHistory {
    type V = HistoryView;

    open spec fn view(&self) -> HistoryView {
        HistoryView {
            store: entry_map(self.store).map_values(|e: ChatEntry| e@),
            branches: branch_map(self.branches),
            base: self.base,
            head: self.head@,
        }
    }
}

/// The id that branch `b` ends at, if the branch exists.
pub open spec fn tip(v: HistoryView, b: Seq<char>) -> Option<u128> {
    if v.branches.contains_key(b) {
        Some(v.branches[b])
    } else {
        None
    }
}

/// Whether two strings hold the same text.
pub(crate) fn same_text(a: &str, b: &str) -> (r: bool)
    ensures
        r == (a@ == b@),
{
    a.to_owned() == b.to_owned()
}

/// Errors of the history operations.
#[derive(Debug, Clone, Copy, PartialEq, Eq)]
pub enum HistoryError {
    /// The branch to rename does not exist.
    BranchNotFound,
    /// The branch to prune does not exist.
    CannotPrune,
}

/// The views of a sequence of contents.
pub open spec fn content_views(c: Seq<ChatContent>) -> Seq<ContentView> {
    c.map_values(|x: ChatContent| x@)
}

/// The history after appending `contents` to branch `b`, one entry each, the
/// i-th under id `ids[i]`, each entry the child of the previous tip of `b`.
pub open spec fn appended(
    v: HistoryView,
    b: Seq<char>,
    contents: Seq<ContentView>,
    ids: Seq<u128>,
) -> HistoryView
    decreases contents.len(),
{
    if contents.len() == 0 || ids.len() == 0 {
        v
    } else {
        let prev = appended(v, b, contents.drop_last(), ids.drop_last());
        let id = ids.last();
        HistoryView {
            store: prev.store.insert(
                id,
                EntryView { id, parent: tip(prev, b), aside: None, branch: b, content: contents.last() },
            ),
            branches: prev.branches.insert(b, id),
            ..prev
        }
    }
}

/// The branch that `extend` writes to: the named one, else the current one.
pub open spec fn target_branch(v: HistoryView, branch: Option<&str>) -> Seq<char> {
    match branch {
        Some(b) => b@,
        None => v.head,
    }
}

proof fn lemma_view_insert(m: Map<u128, ChatEntry>, k: u128, e: ChatEntry)
    ensures
        m.insert(k, e).map_values(|x: ChatEntry| x@) == m.map_values(|x: ChatEntry| x@).insert(
            k,
            e@,
        ),
{
    assert(m.insert(k, e).map_values(|x: ChatEntry| x@) =~= m.map_values(|x: ChatEntry| x@).insert(
        k,
        e@,
    ));
}

proof fn lemma_view_remove(m: Map<u128, ChatEntry>, k: u128)
    ensures
        m.remove(k).map_values(|x: ChatEntry| x@) == m.map_values(|x: ChatEntry| x@).remove(k),
{
    assert(m.remove(k).map_values(|x: ChatEntry| x@) =~= m.map_values(|x: ChatEntry| x@).remove(k));
}

/// The entries of a side conversation before it is linked in: the i-th content
/// under id `ids[i]`, each the child of the one before, on no branch.
pub open spec fn aside_store(
    store: Map<u128, EntryView>,
    contents: Seq<ContentView>,
    ids: Seq<u128>,
) -> Map<u128, EntryView>
    decreases contents.len(),
{
    if contents.len() == 0 || ids.len() == 0 {
        store
    } else {
        aside_store(store, contents.drop_last(), ids.drop_last()).insert(
            ids.last(),
            EntryView {
                id: ids.last(),
                parent: if ids.len() >= 2 {
                    Some(ids[ids.len() - 2])
                } else {
                    None
                },
                aside: None,
                branch: Seq::empty(),
                content: contents.last(),
            },
        )
    }
}

/// The history after adding a side conversation: its entries are written as a
/// chain; the first is then put on the current branch under the branch's tip,
/// and the last is put on the current branch as the child of the first,
/// remembering its chain parent in `aside`. The current branch ends at the last.
pub open spec fn with_aside(v: HistoryView, contents: Seq<ContentView>, ids: Seq<u128>) -> HistoryView {
    if contents.len() == 0 {
        v
    } else {
        let s0 = aside_store(v.store, contents, ids);
        let f = ids[0];
        let l = ids.last();
        let s1 = s0.insert(f, EntryView { branch: v.head, parent: tip(v, v.head), ..s0[f] });
        let s2 = s1.insert(
            l,
            EntryView { aside: s1[l].parent, parent: Some(f), branch: v.head, ..s1[l] },
        );
        HistoryView { store: s2, branches: v.branches.insert(v.head, l), ..v }
    }
}

proof fn lemma_aside_dom(store: Map<u128, EntryView>, contents: Seq<ContentView>, ids: Seq<u128>)
    requires
        ids.len() == contents.len(),
    ensures
        forall|j: int| 0 <= j < ids.len() ==> aside_store(store, contents, ids).contains_key(#[trigger] ids[j]),
    decreases contents.len(),
{
    if contents.len() > 0 {
        lemma_aside_dom(store, contents.drop_last(), ids.drop_last());
        assert forall|j: int| 0 <= j < ids.len() implies aside_store(store, contents, ids).contains_key(#[trigger] ids[j]) by {
            if j < ids.len() - 1 {
                assert(ids.drop_last()[j] == ids[j]);
            }
        }
    }
}

/// The ids met when walking back from `cursor` along parent links: the walk
/// ends before `stop`, at a missing entry, at the root, or after `fuel` entries.
/// A history whose parent links form no cycle never runs out of fuel when the
/// fuel is the number of its entries.
pub open spec fn walk_back(
    store: Map<u128, EntryView>,
    cursor: Option<u128>,
    stop: Option<u128>,
    fuel: nat,
) -> Seq<u128>
    decreases fuel,
{
    match cursor {
        None => Seq::empty(),
        Some(id) => if fuel == 0 || !store.contains_key(id) || Some(id) == stop {
            Seq::empty()
        } else {
            seq![id] + walk_back(store, store[id].parent, stop, (fuel - 1) as nat)
        },
    }
}

/// Like [`walk_back`], but the walk ends at the entry whose own id is `stop`.
pub open spec fn walk_back_ids(
    store: Map<u128, EntryView>,
    cursor: Option<u128>,
    stop: Option<u128>,
    fuel: nat,
) -> Seq<u128>
    decreases fuel,
{
    match cursor {
        None => Seq::empty(),
        Some(id) => if fuel == 0 || !store.contains_key(id) || Some(store[id].id) == stop {
            Seq::empty()
        } else {
            seq![id] + walk_back_ids(store, store[id].parent, stop, (fuel - 1) as nat)
        },
    }
}

/// The entries stored under a sequence of ids.
pub open spec fn entries_at(store: Map<u128, EntryView>, ids: Seq<u128>) -> Seq<EntryView> {
    ids.map_values(|id: u128| store[id])
}

/// The views of a sequence of entries.
pub open spec fn entry_views(s: Seq<&ChatEntry>) -> Seq<EntryView> {
    s.map_values(|e: &ChatEntry| e@)
}

/// The message an entry holds, if it holds one.
pub open spec fn message_pick() -> spec_fn(EntryView) -> Option<serde_json::Value> {
    |e: EntryView|
        match e.content {
            ContentView::Message(m) => Some(m),
            _ => None,
        }
}

/// The messages among some entries, in order.
pub open spec fn messages_of(s: Seq<EntryView>) -> Seq<serde_json::Value> {
    s.filter_map(message_pick())
}

/// The conversation of the current branch, newest first: the walk back from
/// the branch's tip that ends at the entry whose id is the base message.
pub open spec fn conversation_rev(v: HistoryView) -> Seq<EntryView> {
    match tip(v, v.head) {
        Some(end) => entries_at(v.store, walk_back_ids(v.store, Some(end), v.base, v.store.len())),
        None => Seq::empty(),
    }
}

/// The conversation of the current branch, oldest first: the walk back from
/// the branch's tip to the base message (exclusive).
pub open spec fn conversation(v: HistoryView) -> Seq<EntryView> {
    match tip(v, v.head) {
        Some(end) => entries_at(v.store, walk_back(v.store, Some(end), v.base, v.store.len()).reverse()),
        None => Seq::empty(),
    }
}

/// The store after renaming the run of entries on branch `old` that ends at
/// `cursor` (walking back along parent links) to branch `new`.
pub open spec fn rename_walk(
    store: Map<u128, EntryView>,
    cursor: u128,
    old: Seq<char>,
    new: Seq<char>,
    fuel: nat,
) -> Map<u128, EntryView>
    decreases fuel,
{
    if fuel == 0 || !store.contains_key(cursor) || store[cursor].branch != old {
        store
    } else {
        let node = store[cursor];
        let next = store.insert(cursor, EntryView { branch: new, ..node });
        match node.parent {
            None => next,
            Some(p) => rename_walk(next, p, old, new, (fuel - 1) as nat),
        }
    }
}

/// The store after promoting branch `b`: walking back from `cursor`, entries of
/// `b` stay; the first entry of another branch and the entries of that same
/// branch before it are moved onto `b`; the walk ends at the next change of branch.
pub open spec fn promote_walk(
    store: Map<u128, EntryView>,
    cursor: u128,
    b: Seq<char>,
    ancestor: Option<Seq<char>>,
    fuel: nat,
) -> Map<u128, EntryView>
    decreases fuel,
{
    if fuel == 0 || !store.contains_key(cursor) {
        store
    } else {
        let node = store[cursor];
        match ancestor {
            Some(t) => if node.branch != t {
                store
            } else {
                let next = store.insert(cursor, EntryView { branch: b, ..node });
                match node.parent {
                    None => next,
                    Some(p) => promote_walk(next, p, b, ancestor, (fuel - 1) as nat),
                }
            },
            None => {
                let anc = if node.branch != b {
                    Some(node.branch)
                } else {
                    None
                };
                let next = store.insert(cursor, EntryView { branch: b, ..node });
                match node.parent {
                    None => next,
                    Some(p) => promote_walk(next, p, b, anc, (fuel - 1) as nat),
                }
            },
        }
    }
}

/// Pruning branch `b` from `cursor`: entries are removed walking back (through
/// `aside` links where present, else parent links) until an entry of another,
/// non-empty branch, which becomes the current branch if `b` was current.
/// Returns the store and the current branch.
/// The id after `id` on its parent chain: its entry's parent, if it has an entry.
pub open spec fn next_id(store: Map<u128, EntryView>, id: Option<u128>) -> Option<u128> {
    match id {
        Some(i) => if store.contains_key(i) {
            store[i].parent
        } else {
            None
        },
        None => None,
    }
}

/// Walks two parent chains in lockstep, `a` before `b` at each step, and
/// returns the first id met that was met before; `None` once both chains end
/// (or after `fuel` steps).
pub open spec fn common_search(
    sa: Map<u128, EntryView>,
    sb: Map<u128, EntryView>,
    a: Option<u128>,
    b: Option<u128>,
    seen: Set<u128>,
    fuel: nat,
) -> Option<u128>
    decreases fuel,
{
    if fuel == 0 || (a.is_none() && b.is_none()) {
        None
    } else if a matches Some(x) && seen.contains(x) {
        a
    } else {
        let seen1 = match a {
            Some(x) => seen.insert(x),
            None => seen,
        };
        if b matches Some(y) && seen1.contains(y) {
            b
        } else {
            let seen2 = match b {
                Some(y) => seen1.insert(y),
                None => seen1,
            };
            common_search(sa, sb, next_id(sa, a), next_id(sb, b), seen2, (fuel - 1) as nat)
        }
    }
}

/// The last message common to the current branches of two histories.
pub open spec fn common_message(v: HistoryView, w: HistoryView) -> Option<u128> {
    common_search(
        v.store,
        w.store,
        tip(v, v.head),
        tip(w, w.head),
        Set::empty(),
        v.store.len() + w.store.len() + 2,
    )
}

/// The relation between branches that entry `k` shows: a branch entry whose
/// parent is on another non-empty branch links that branch to its own; a branch
/// entry without a stored parent links the root (the empty name) to its branch.
pub open spec fn entry_edge(v: HistoryView, k: u128) -> Option<(Seq<char>, Seq<char>)> {
    let e = v.store[k];
    if e.branch.len() == 0 {
        None
    } else {
        match e.parent {
            Some(p) => if v.store.contains_key(p) {
                let pb = v.store[p].branch;
                if pb != e.branch && pb.len() != 0 {
                    Some((pb, e.branch))
                } else {
                    None
                }
            } else {
                Some((Seq::empty(), e.branch))
            },
            None => Some((Seq::empty(), e.branch)),
        }
    }
}

/// The branch of the entry stored under `id`, if there is one.
pub open spec fn branch_at(v: HistoryView, id: Option<u128>) -> Option<Seq<char>> {
    match id {
        Some(i) => if v.store.contains_key(i) {
            Some(v.store[i].branch)
        } else {
            None
        },
        None => None,
    }
}

/// A branch whose tip lies on another branch (or on none) links that branch
/// (or the root) to it.
pub open spec fn branch_edge(v: HistoryView, name: Seq<char>) -> Option<(Seq<char>, Seq<char>)> {
    let parent = branch_at(v, Some(v.branches[name]));
    if name.len() != 0 && parent != Some(name) {
        Some((
            match parent {
                Some(p) => p,
                None => Seq::empty(),
            },
            name,
        ))
    } else {
        None
    }
}

/// A current branch that has no entries of its own yet is linked from the
/// branch (or the root) it starts at.
pub open spec fn head_edge(v: HistoryView) -> Option<(Seq<char>, Seq<char>)> {
    let parent = branch_at(v, tip(v, v.head));
    if v.head.len() != 0 && parent != Some(v.head) {
        Some((
            match parent {
                Some(p) => p,
                None => Seq::empty(),
            },
            v.head,
        ))
    } else {
        None
    }
}

/// Which branch grows out of which: pairs of a parent branch (the empty name
/// for the root) and a child branch.
pub open spec fn lineage_edges(v: HistoryView) -> Set<(Seq<char>, Seq<char>)> {
    Set::new(
        |p: (Seq<char>, Seq<char>)|
            (exists|k: u128| v.store.contains_key(k) && entry_edge(v, k) == Some(p)) || (exists|
                name: Seq<char>,
            |
                v.branches.contains_key(name) && branch_edge(v, name) == Some(p)) || head_edge(v)
                == Some(p),
    )
}

/// The views of a list of pairs of strings.
pub open spec fn pair_views(s: Seq<(String, String)>) -> Seq<(Seq<char>, Seq<char>)> {
    s.map_values(|p: (String, String)| (p.0@, p.1@))
}

/// Adds a pair to a list of distinct pairs unless it is there already.
fn add_edge(edges: &mut Vec<(String, String)>, a: String, b: String)
    requires
        pair_views(old(edges)@).no_duplicates(),
    ensures
        pair_views(final(edges)@).no_duplicates(),
        pair_views(final(edges)@).to_set() == pair_views(old(edges)@).to_set().insert((a@, b@)),
{
    let ghost before = pair_views(edges@);
    let mut i: usize = 0;
    while i < edges.len()
        invariant
            i <= edges@.len(),
            before == pair_views(edges@),
            before.no_duplicates(),
            forall|j: int| 0 <= j < i ==> before[j] != (a@, b@),
        decreases edges@.len() - i,
    {
        if same_text(edges[i].0.as_str(), a.as_str()) && same_text(edges[i].1.as_str(), b.as_str()) {
            assert(before[i as int] == (a@, b@));
            assert(before.contains((a@, b@)));
            assert(before.to_set().insert((a@, b@)) =~= before.to_set());
            return;
        }
        i += 1;
    }
    edges.push((a, b));
    assert(pair_views(edges@) =~= before.push((a@, b@)));
    proof {
        before.lemma_push_to_set_commute((a@, b@));
        assert forall|x: int, y: int| 0 <= x < y < before.len() + 1 implies before.push((a@, b@))[x]
            != before.push((a@, b@))[y] by {
            if y == before.len() {
                assert(before[x] != (a@, b@));
            }
        }
    }
}

/// The steps the search of a common message may take.
fn search_fuel(na: usize, nb: usize) -> (r: u128)
    ensures
        r == na + nb + 2,
{
    na as u128 + nb as u128 + 2
}

pub open spec fn nat_of(x: u128) -> nat {
    x as nat
}

pub open spec fn opt_view(o: Option<String>) -> Option<Seq<char>> {
    match o {
        Some(s) => Some(s@),
        None => None,
    }
}

pub open spec fn prune_walk(
    store: Map<u128, EntryView>,
    cursor: u128,
    b: Seq<char>,
    head: Seq<char>,
) -> (Map<u128, EntryView>, Seq<char>)
    decreases store.dom().len(),
    when store.dom().finite()
{
    if !store.contains_key(cursor) {
        (store, head)
    } else {
        let node = store[cursor];
        if node.branch.len() != 0 && node.branch != b {
            (store, if head == b { node.branch } else { head })
        } else {
            let next = if node.aside.is_some() { node.aside } else { node.parent };
            match next {
                None => (store.remove(cursor), head),
                Some(p) => prune_walk(store.remove(cursor), p, b, head),
            }
        }
    }
}

impl ChatHistory {
    /// An empty history on branch `default`.
    pub fn new() -> (r: ChatHistory)
        ensures
            r@.store.dom().is_empty(),
            r@.branches.dom().is_empty(),
            r@.base.is_none(),
            r@.head == "default"@,
    {
        let store = entries_new();
        let r = ChatHistory { store, branches: branches_new(), base: None, head: "default".to_owned() };
        r
    }

    /// A copy with the same value.
    pub fn duplicate(&self) -> (r: ChatHistory)
        ensures
            r@ == self@,
    {
        ChatHistory {
            store: self.store.clone(),
            branches: self.branches.clone(),
            base: self.base,
            head: self.head.clone(),
        }
    }

    /// Makes `head` the current branch.
    pub fn switch(&self, head: &str) -> (r: Cow<'_, ChatHistory>)
        ensures
            r@ == (HistoryView { head: head@, ..self@ }),
            (r matches Cow::Borrowed(_)) <==> self@.head == head@,
    {
        if same_text(self.head.as_str(), head) {
            Cow::Borrowed(self)
        } else {
            let mut result = self.duplicate();
            result.head = head.to_owned();
            Cow::Owned(result)
        }
    }

    /// Sets the first message of iteration.
    pub fn with_base(&self, base: Option<u128>) -> (r: Cow<'_, ChatHistory>)
        ensures
            r@ == (HistoryView { base, ..self@ }),
            (r matches Cow::Borrowed(_)) <==> self@.base == base,
    {
        if self.base == base {
            Cow::Borrowed(self)
        } else {
            let mut result = self.duplicate();
            result.base = base;
            Cow::Owned(result)
        }
    }

    /// Whether a branch of that name exists.
    pub fn has_branch(&self, name: &str) -> (r: bool)
        ensures
            r == self@.branches.contains_key(name@),
    {
        branches_get(&self.branches, name).is_some()
    }

    /// The current branch and the id it ends at.
    fn head_branch(&self) -> (r: (String, Option<u128>))
        ensures
            r.0@ == self@.head,
            r.1 == tip(self@, self@.head),
    {
        let branch = self.head.clone();
        let uuid = branches_get(&self.branches, self.head.as_str());
        (branch, uuid)
    }

    /// Makes `branch` the current branch; a branch that does not exist yet is
    /// created at `parent` when one is given.
    pub fn create_branch(&self, branch: &str, parent: Option<u128>) -> (r: Result<
        Cow<'_, ChatHistory>,
        HistoryError,
    >)
        ensures
            r matches Ok(h) && h@ == (HistoryView {
                branches: if !self@.branches.contains_key(branch@) && parent.is_some() {
                    self@.branches.insert(branch@, parent.unwrap())
                } else {
                    self@.branches
                },
                head: branch@,
                ..self@
            }) && ((h matches Cow::Borrowed(_)) <==> ((self@.branches.contains_key(branch@)
                || parent.is_none()) && self@.head == branch@)),
    {
        let add = !self.has_branch(branch) && parent.is_some();
        let rename = !same_text(self.head.as_str(), branch);
        if !add && !rename {
            return Ok(Cow::Borrowed(self));
        }
        let mut result = self.duplicate();
        if add {
            result.branches = branches_update(&self.branches, branch.to_owned(), parent.unwrap());
        }
        if rename {
            result.head = branch.to_owned();
        }
        Ok(Cow::Owned(result))
    }

    /// Appends one content to `branch`, or to the current branch.
    pub fn push(&self, content: ChatContent, branch: Option<&str>) -> (r: Result<
        Cow<'_, ChatHistory>,
        HistoryError,
    >)
        ensures
            r matches Ok(h) && (h matches Cow::Owned(_)) && exists|id: u128|
                h@ == appended(
                    self@,
                    target_branch(self@, branch),
                    seq![content@],
                    seq![id],
                ),
    {
        let mut contents: Vec<ChatContent> = Vec::new();
        contents.push(content);
        let r = self.extend(contents, branch);
        proof {
            assert(content_views(contents@) =~= seq![content@]);
            if let Ok(h) = &r {
                let ids = choose|ids: Seq<u128>|
                    ids.len() == 1 && h@ == appended(
                        self@,
                        target_branch(self@, branch),
                        content_views(contents@),
                        ids,
                    );
                assert(ids =~= seq![ids[0]]);
            }
        }
        r
    }

    /// Appends the contents in order to `branch`, or to the current branch, each
    /// under a fresh random id and each the child of the one before.
    pub fn extend(&self, contents: Vec<ChatContent>, branch: Option<&str>) -> (r: Result<
        Cow<'_, ChatHistory>,
        HistoryError,
    >)
        ensures
            r matches Ok(h) && (exists|ids: Seq<u128>|
                ids.len() == contents@.len() && h@ == appended(
                    self@,
                    target_branch(self@, branch),
                    content_views(contents@),
                    ids,
                )) && ((h matches Cow::Borrowed(_)) <==> contents@.len() == 0),
    {
        let ghost cv = content_views(contents@);
        let ghost target = target_branch(self@, branch);
        if contents.len() == 0 {
            assert(appended(self@, target, cv, Seq::<u128>::empty()) == self@);
            return Ok(Cow::Borrowed(self));
        }
        let mut result = self.duplicate();
        let mut rest = contents;
        let ghost n = rest@.len();
        let ghost mut ids: Seq<u128> = Seq::empty();
        assert(cv.subrange(0, 0) =~= Seq::<ContentView>::empty());
        while rest.len() > 0
            invariant
                n == cv.len(),
                ids.len() + rest@.len() == n,
                content_views(rest@) == cv.subrange(ids.len() as int, n as int),
                result@ == appended(self@, target, cv.subrange(0, ids.len() as int), ids),
                result@.head == self@.head,
                target == target_branch(self@, branch),
            decreases rest@.len(),
        {
            let ghost k: int = ids.len() as int;
            let ghost prev = result@;
            let ghost old_rest = rest@;
            let content = rest.remove(0);
            proof {
                assert(content_views(old_rest)[0] == cv.subrange(k, n as int)[0]);
                assert(content_views(rest@) =~= content_views(old_rest).subrange(1, old_rest.len() as int));
                assert(content_views(rest@) =~= cv.subrange(k + 1, n as int));
                assert(content@ == cv[k as int]);
            }
            let (bname, parent) = match branch {
                Some(b) => (b.to_owned(), branches_get(&result.branches, b)),
                None => self.head_branch_of(&result),
            };
            let id = fresh_id();
            let entry = ChatEntry { id, parent, aside: None, content, branch: bname.clone() };
            proof {
                lemma_view_insert(entry_map(result.store), id, entry);
            }
            result.store = entries_update(&result.store, id, entry);
            result.branches = branches_update(&result.branches, bname, id);
            proof {
                let ids2 = ids.push(id);
                let c2 = cv.subrange(0, k + 1);
                assert(c2.drop_last() =~= cv.subrange(0, k));
                assert(ids2.drop_last() =~= ids);
                assert(result@ == appended(self@, target, c2, ids2));
                ids = ids2;
            }
        }
        assert(cv.subrange(0, n as int) =~= cv);
        Ok(Cow::Owned(result))
    }

    /// Adds a side conversation to the current branch: the contents become a
    /// chain of entries whose first hangs off the branch's tip and whose last
    /// becomes the new tip; each entry gets a fresh random id.
    pub fn aside(&self, contents: Vec<ChatContent>) -> (r: Result<Cow<'_, ChatHistory>, HistoryError>)
        ensures
            r matches Ok(h) && (exists|ids: Seq<u128>|
                ids.len() == contents@.len() && h@ == with_aside(
                    self@,
                    content_views(contents@),
                    ids,
                )) && ((h matches Cow::Borrowed(_)) <==> contents@.len() == 0),
    {
        let ghost cv = content_views(contents@);
        if contents.len() == 0 {
            assert(with_aside(self@, cv, Seq::<u128>::empty()) == self@);
            return Ok(Cow::Borrowed(self));
        }
        let mut result = self.duplicate();
        let mut rest = contents;
        let ghost n = rest@.len();
        let ghost mut ids: Seq<u128> = Seq::empty();
        let mut first: Option<u128> = None;
        let mut last: Option<u128> = None;
        assert(cv.subrange(0, 0) =~= Seq::<ContentView>::empty());
        while rest.len() > 0
            invariant
                n == cv.len(),
                ids.len() + rest@.len() == n,
                content_views(rest@) == cv.subrange(ids.len() as int, n as int),
                result@ == (HistoryView {
                    store: aside_store(self@.store, cv.subrange(0, ids.len() as int), ids),
                    ..self@
                }),
                ids.len() == 0 ==> first.is_none() && last.is_none(),
                ids.len() > 0 ==> first == Some(ids[0]) && last == Some(ids.last()),
            decreases rest@.len(),
        {
            let ghost k: int = ids.len() as int;
            let ghost old_rest = rest@;
            let content = rest.remove(0);
            proof {
                assert(content_views(old_rest)[0] == cv.subrange(k, n as int)[0]);
                assert(content_views(rest@) =~= content_views(old_rest).subrange(1, old_rest.len() as int));
                assert(content_views(rest@) =~= cv.subrange(k + 1, n as int));
            }
            let id = fresh_id();
            let entry = ChatEntry { id, parent: last, aside: None, content, branch: String::new() };
            proof {
                lemma_view_insert(entry_map(result.store), id, entry);
            }
            result.store = entries_update(&result.store, id, entry);
            if first.is_none() {
                first = Some(id);
            }
            last = Some(id);
            proof {
                let ids2 = ids.push(id);
                let c2 = cv.subrange(0, k + 1);
                assert(c2.drop_last() =~= cv.subrange(0, k));
                assert(ids2.drop_last() =~= ids);
                assert(result@.store == aside_store(self@.store, c2, ids2));
                ids = ids2;
            }
        }
        assert(cv.subrange(0, n as int) =~= cv);
        proof {
            lemma_aside_dom(self@.store, cv, ids);
        }
        let (branch, parent) = self.head_branch();
        let first_id = first.unwrap();
        let last_id = last.unwrap();
        let old_first = entries_get(&result.store, first_id).unwrap();
        let new_first = ChatEntry {
            id: old_first.id,
            parent,
            aside: old_first.aside,
            branch: branch.clone(),
            content: old_first.content.duplicate(),
        };
        proof {
            lemma_view_insert(entry_map(result.store), first_id, new_first);
        }
        result.store = entries_update(&result.store, first_id, new_first);
        let old_last = entries_get(&result.store, last_id).unwrap();
        let new_last = ChatEntry {
            id: old_last.id,
            parent: Some(first_id),
            aside: old_last.parent,
            branch: branch.clone(),
            content: old_last.content.duplicate(),
        };
        proof {
            lemma_view_insert(entry_map(result.store), last_id, new_last);
        }
        result.store = entries_update(&result.store, last_id, new_last);
        result.branches = branches_update(&result.branches, self.head.clone(), last_id);
        proof {
            let w = with_aside(self@, cv, ids);
            assert(result@.store =~= w.store);
            assert(result@.branches =~= w.branches);
            assert(result@ == w);
        }
        Ok(Cow::Owned(result))
    }

    /// The number of entries; the store holds finitely many.
    fn entry_count(&self) -> (r: usize)
        ensures
            self@.store.dom().finite(),
            r == self@.store.len(),
    {
        let keys = entries_keys(&self.store);
        proof {
            vstd::seq_lib::seq_to_set_is_finite(keys@);
            assert(keys@.no_duplicates()) by {
                assert forall|i: int, j: int| 0 <= i < keys@.len() && 0 <= j < keys@.len() && i != j implies keys@[i] != keys@[j] by {
                    if i < j {
                    } else {
                    }
                }
            }
            keys@.unique_seq_to_set();
            assert(self@.store.dom() =~= entry_map(self.store).dom());
        }
        keys.len()
    }

    /// The entries after `start_msg` up to `end_msg`, oldest first: those met
    /// walking back along parent links from `end_msg`. Without `start_msg` the
    /// walk goes to the root. It also stops at an id the store does not hold,
    /// or after as many steps as the store holds entries.
    pub fn iter_between(&self, start_msg: Option<u128>, end_msg: u128) -> (r: Vec<&ChatEntry>)
        ensures
            entry_views(r@) == entries_at(
                self@.store,
                walk_back(self@.store, Some(end_msg), start_msg, self@.store.len()).reverse(),
            ),
    {
        let stop = start_msg;
        let fuel0 = self.entry_count();
        let mut fuel = fuel0;
        let mut cursor = Some(end_msg);
        let mut buffer: Vec<&ChatEntry> = Vec::new();
        let ghost store = self@.store;
        let ghost whole = walk_back(store, Some(end_msg), stop, fuel0 as nat);
        let mut done = false;
        while !done
            invariant
                store == self@.store,
                entries_at(store, whole) == entry_views(buffer@) + entries_at(
                    store,
                    walk_back(store, cursor, stop, fuel as nat),
                ),
                done ==> walk_back(store, cursor, stop, fuel as nat) == Seq::<u128>::empty(),
            decreases fuel + if done { 0int } else { 1int },
        {
            match cursor {
                None => {
                    done = true;
                },
                Some(id) => {
                    if fuel == 0 {
                        done = true;
                    } else {
                        match entries_get(&self.store, id) {
                            None => {
                                done = true;
                            },
                            Some(entry) => {
                                let at_stop = match stop {
                                    Some(s) => s == id,
                                    None => false,
                                };
                                if at_stop {
                                    done = true;
                                } else {
                                    let ghost before = buffer@;
                                    let ghost rest = walk_back(store, entry.parent, stop, (fuel - 1) as nat);
                                    assert(walk_back(store, cursor, stop, fuel as nat) == seq![id] + rest);
                                    assert(entries_at(store, seq![id] + rest) =~= seq![store[id]] + entries_at(store, rest));
                                    buffer.push(entry);
                                    assert(entry_views(buffer@) =~= entry_views(before) + seq![store[id]]);
                                    cursor = entry.parent;
                                    fuel -= 1;
                                }
                            },
                        }
                    }
                },
            }
        }
        assert(entries_at(store, whole) =~= entry_views(buffer@));
        let mut out: Vec<&ChatEntry> = Vec::new();
        let mut i = buffer.len();
        while i > 0
            invariant
                i <= buffer@.len(),
                entry_views(out@) =~= entry_views(buffer@).subrange(i as int, buffer@.len() as int).reverse(),
            decreases i,
        {
            i -= 1;
            let ghost old_out = out@;
            out.push(buffer[i]);
            proof {
                let bv = entry_views(buffer@);
                assert(entry_views(out@) =~= entry_views(old_out).push(bv[i as int]));
                assert(bv.subrange(i as int, buffer@.len() as int).reverse() =~= bv.subrange(
                    i + 1,
                    buffer@.len() as int,
                ).reverse().push(bv[i as int]));
            }
        }
        assert(entries_at(store, whole.reverse()) =~= entries_at(store, whole).reverse());
        assert(entry_views(buffer@).subrange(0, buffer@.len() as int) =~= entry_views(buffer@));
        out
    }

    /// The conversation of the current branch, oldest first: from after the
    /// base message, or from the root without one.
    pub fn iter(&self) -> (r: Vec<&ChatEntry>)
        ensures
            entry_views(r@) == conversation(self@),
    {
        match branches_get(&self.branches, self.head.as_str()) {
            Some(end) => self.iter_between(self.base, end),
            None => {
                let r: Vec<&ChatEntry> = Vec::new();
                assert(entry_views(r@) =~= Seq::<EntryView>::empty());
                r
            },
        }
    }

    /// The conversation of the current branch, newest first, ending before the
    /// base message.
    pub fn rev_iter(&self) -> (r: Vec<&ChatEntry>)
        ensures
            entry_views(r@) == conversation_rev(self@),
    {
        let mut buffer: Vec<&ChatEntry> = Vec::new();
        let ghost store = self@.store;
        let fuel0 = self.entry_count();
        let mut fuel = fuel0;
        let mut cursor = branches_get(&self.branches, self.head.as_str());
        let ghost start = cursor;
        let ghost whole = walk_back_ids(store, start, self.base, fuel0 as nat);
        assert(entry_views(buffer@) =~= Seq::<EntryView>::empty());
        let mut done = false;
        while !done
            invariant
                store == self@.store,
                entries_at(store, whole) == entry_views(buffer@) + entries_at(
                    store,
                    walk_back_ids(store, cursor, self.base, fuel as nat),
                ),
                done ==> walk_back_ids(store, cursor, self.base, fuel as nat) == Seq::<u128>::empty(),
            decreases fuel + if done { 0int } else { 1int },
        {
            match cursor {
                None => {
                    done = true;
                },
                Some(id) => {
                    if fuel == 0 {
                        done = true;
                    } else {
                        match entries_get(&self.store, id) {
                            None => {
                                done = true;
                            },
                            Some(entry) => {
                                let at_base = match self.base {
                                    Some(b) => b == entry.id,
                                    None => false,
                                };
                                if at_base {
                                    done = true;
                                } else {
                                    let ghost before = buffer@;
                                    let ghost rest = walk_back_ids(store, entry.parent, self.base, (fuel - 1) as nat);
                                    assert(walk_back_ids(store, cursor, self.base, fuel as nat) == seq![id] + rest);
                                    assert(entries_at(store, seq![id] + rest) =~= seq![store[id]] + entries_at(store, rest));
                                    buffer.push(entry);
                                    assert(entry_views(buffer@) =~= entry_views(before) + seq![store[id]]);
                                    cursor = entry.parent;
                                    fuel -= 1;
                                }
                            },
                        }
                    }
                },
            }
        }
        assert(entries_at(store, whole) =~= entry_views(buffer@));
        assert(entry_views(buffer@) == conversation_rev(self@)) by {
            match start {
                Some(end) => {},
                None => {
                    assert(entries_at(store, whole) =~= Seq::<EntryView>::empty());
                },
            }
        }
        buffer
    }

    /// The side conversation held by `entry`: the entries from its parent
    /// (exclusive) to the end of the side chain, oldest first.
    pub fn iter_aside(&self, entry: &ChatEntry) -> (r: Vec<&ChatEntry>)
        ensures
            entry_views(r@) == match entry.aside {
                Some(end) => entries_at(
                    self@.store,
                    walk_back(self@.store, Some(end), entry.parent, self@.store.len()).reverse(),
                ),
                None => Seq::empty(),
            },
    {
        match entry.aside {
            Some(end) => self.iter_between(entry.parent, end),
            None => {
                let r: Vec<&ChatEntry> = Vec::new();
                assert(entry_views(r@) =~= Seq::<EntryView>::empty());
                r
            },
        }
    }

    /// The messages of the conversation of the current branch, oldest first.
    pub fn iter_msgs(&self) -> (r: Vec<&serde_json::Value>)
        ensures
            r@.map_values(|m: &serde_json::Value| *m) == messages_of(conversation(self@)),
    {
        let entries = self.iter();
        let ghost ev = entry_views(entries@);
        let mut out: Vec<&serde_json::Value> = Vec::new();
        let mut i: usize = 0;
        while i < entries.len()
            invariant
                i <= entries@.len(),
                ev == entry_views(entries@),
                out@.map_values(|m: &serde_json::Value| *m) == ev.take(i as int).filter_map(message_pick()),
            decreases entries@.len() - i,
        {
            let ghost old_out = out@;
            proof {
                ev.lemma_filter_map_take_succ(message_pick(), i as int);
            }
            match &entries[i].content {
                ChatContent::Message(m) => {
                    out.push(m);
                    assert(out@.map_values(|m: &serde_json::Value| *m) =~= old_out.map_values(|m: &serde_json::Value| *m) + seq![*m]);
                },
                _ => {},
            }
            i += 1;
        }
        assert(ev.take(entries@.len() as int) =~= ev);
        out
    }

    /// Renames branch `branch` to `new_name`: the name now ends where the old
    /// one did, the current branch follows the rename, and the run of entries
    /// of the old branch that ends at its tip is moved to the new name.
    pub fn rename_branch(&self, branch: &str, new_name: &str) -> (r: Result<
        Cow<'_, ChatHistory>,
        HistoryError,
    >)
        ensures
            r is Err <==> !self@.branches.contains_key(branch@),
            r is Err ==> r == Err::<Cow<'_, ChatHistory>, HistoryError>(HistoryError::BranchNotFound),
            r matches Ok(h) ==> (h matches Cow::Owned(_)) && h@ == (HistoryView {
                store: rename_walk(
                    self@.store,
                    self@.branches[branch@],
                    branch@,
                    new_name@,
                    self@.store.len(),
                ),
                branches: self@.branches.remove(branch@).insert(
                    new_name@,
                    self@.branches[branch@],
                ),
                head: if self@.head == branch@ {
                    new_name@
                } else {
                    self@.head
                },
                base: self@.base,
            }),
    {
        let head_id = match branches_get(&self.branches, branch) {
            Some(id) => id,
            None => {
                return Err(HistoryError::BranchNotFound);
            },
        };
        let mut result = self.duplicate();
        result.branches = branches_update(
            &branches_without(&self.branches, branch),
            new_name.to_owned(),
            head_id,
        );
        if same_text(self.head.as_str(), branch) {
            result.head = new_name.to_owned();
        }
        let fuel0 = self.entry_count();
        let mut fuel = fuel0;
        let ghost target = rename_walk(self@.store, head_id, branch@, new_name@, fuel0 as nat);
        let mut cursor = head_id;
        let mut done = false;
        while !done
            invariant
                !done ==> rename_walk(result@.store, cursor, branch@, new_name@, fuel as nat) == target,
                done ==> result@.store == target,
                result@.branches == self@.branches.remove(branch@).insert(new_name@, head_id),
                result@.head == (if self@.head == branch@ {
                    new_name@
                } else {
                    self@.head
                }),
                result@.base == self@.base,
            decreases fuel + if done { 0int } else { 1int },
        {
            if fuel == 0 {
                done = true;
            } else {
                match entries_get(&result.store, cursor) {
                    None => {
                        done = true;
                    },
                    Some(node) => {
                        if !same_text(node.branch.as_str(), branch) {
                            done = true;
                        } else {
                            let renamed = ChatEntry {
                                id: node.id,
                                parent: node.parent,
                                aside: node.aside,
                                branch: new_name.to_owned(),
                                content: node.content.duplicate(),
                            };
                            let parent = node.parent;
                            proof {
                                lemma_view_insert(entry_map(result.store), cursor, renamed);
                            }
                            result.store = entries_update(&result.store, cursor, renamed);
                            match parent {
                                None => {
                                    done = true;
                                },
                                Some(p) => {
                                    cursor = p;
                                    fuel -= 1;
                                },
                            }
                        }
                    },
                }
            }
        }
        Ok(Cow::Owned(result))
    }

    /// Moves the run of entries that ends at branch `branch`'s tip onto that
    /// branch, together with the run of the first other branch met behind it.
    pub fn promote_branch(&self, branch: &str) -> (r: Result<Cow<'_, ChatHistory>, HistoryError>)
        ensures
            r matches Ok(h) && if self@.branches.contains_key(branch@) {
                &&& h@ == (HistoryView {
                    store: promote_walk(
                        self@.store,
                        self@.branches[branch@],
                        branch@,
                        None,
                        self@.store.len(),
                    ),
                    ..self@
                })
                &&& (h matches Cow::Borrowed(_)) <==> !self@.store.contains_key(
                    self@.branches[branch@],
                )
            } else {
                h matches Cow::Borrowed(_)
            },
    {
        let head_id = match branches_get(&self.branches, branch) {
            Some(id) => id,
            None => {
                return Ok(Cow::Borrowed(self));
            },
        };
        let fuel0 = self.entry_count();
        if fuel0 == 0 || entries_get(&self.store, head_id).is_none() {
            return Ok(Cow::Borrowed(self));
        }
        let mut result = self.duplicate();
        let mut fuel = fuel0;
        let ghost target = promote_walk(self@.store, head_id, branch@, None, fuel0 as nat);
        let mut cursor = head_id;
        let mut ancestor: Option<String> = None;
        let mut done = false;
        while !done
            invariant
                !done ==> promote_walk(result@.store, cursor, branch@, opt_view(ancestor), fuel as nat)
                    == target,
                done ==> result@.store == target,
                result@.branches == self@.branches,
                result@.head == self@.head,
                result@.base == self@.base,
            decreases fuel + if done { 0int } else { 1int },
        {
            if fuel == 0 {
                done = true;
            } else {
                match entries_get(&result.store, cursor) {
                    None => {
                        done = true;
                    },
                    Some(node) => {
                        let mut stop = false;
                        match &ancestor {
                            Some(t) => {
                                if !same_text(node.branch.as_str(), t.as_str()) {
                                    stop = true;
                                }
                            },
                            None => {
                                if !same_text(node.branch.as_str(), branch) {
                                    ancestor = Some(node.branch.clone());
                                }
                            },
                        }
                        if stop {
                            done = true;
                        } else {
                            let moved = ChatEntry {
                                id: node.id,
                                parent: node.parent,
                                aside: node.aside,
                                branch: branch.to_owned(),
                                content: node.content.duplicate(),
                            };
                            let parent = node.parent;
                            proof {
                                lemma_view_insert(entry_map(result.store), cursor, moved);
                            }
                            result.store = entries_update(&result.store, cursor, moved);
                            match parent {
                                None => {
                                    done = true;
                                },
                                Some(p) => {
                                    cursor = p;
                                    fuel -= 1;
                                },
                            }
                        }
                    },
                }
            }
        }
        Ok(Cow::Owned(result))
    }

    /// Removes branch `branch` and, walking back from its tip, its entries up to
    /// the first entry of another branch; if it was the current branch, that
    /// other branch becomes current.
    pub fn prune_branch(&self, branch: &str) -> (r: Result<Cow<'_, ChatHistory>, HistoryError>)
        ensures
            r is Err <==> !self@.branches.contains_key(branch@),
            r is Err ==> r == Err::<Cow<'_, ChatHistory>, HistoryError>(HistoryError::CannotPrune),
            r matches Ok(h) ==> (h matches Cow::Owned(_)) && self@.store.dom().finite() && h@ == (
            HistoryView {
                store: prune_walk(self@.store, self@.branches[branch@], branch@, self@.head).0,
                branches: self@.branches.remove(branch@),
                head: prune_walk(self@.store, self@.branches[branch@], branch@, self@.head).1,
                base: self@.base,
            }),
    {
        let head_id = match branches_get(&self.branches, branch) {
            Some(id) => id,
            None => {
                return Err(HistoryError::CannotPrune);
            },
        };
        let _ = self.entry_count();
        let mut result = self.duplicate();
        result.branches = branches_without(&self.branches, branch);
        let ghost target = prune_walk(self@.store, head_id, branch@, self@.head);
        let mut cursor = head_id;
        let mut done = false;
        while !done
            invariant
                result@.store.dom().finite(),
                !done ==> prune_walk(result@.store, cursor, branch@, result@.head) == target,
                done ==> (result@.store, result@.head) == target,
                result@.branches == self@.branches.remove(branch@),
                result@.base == self@.base,
            decreases result@.store.dom().len() + if done { 0int } else { 1int },
        {
            match entries_get(&result.store, cursor) {
                None => {
                    done = true;
                },
                Some(node) => {
                    if !node.branch.as_str().is_empty() && !same_text(node.branch.as_str(), branch) {
                        if same_text(result.head.as_str(), branch) {
                            result.head = node.branch.clone();
                        }
                        done = true;
                    } else {
                        let next = match node.aside {
                            Some(a) => Some(a),
                            None => node.parent,
                        };
                        proof {
                            lemma_view_remove(entry_map(result.store), cursor);
                        }
                        result.store = entries_without(&result.store, cursor);
                        match next {
                            None => {
                                done = true;
                            },
                            Some(p) => {
                                cursor = p;
                            },
                        }
                    }
                },
            }
        }
        Ok(Cow::Owned(result))
    }

    /// Returns the last message common to both histories: the first id met
    /// twice when walking back from both current tips in lockstep. If one is a
    /// strict extension of the other, the common id is the tip of the other.
    /// The walk takes at most as many steps as both stores hold entries, plus two.
    pub fn find_common(&self, other: &ChatHistory) -> (r: Option<u128>)
        ensures
            r == common_message(self@, other@),
    {
        broadcast use vstd::std_specs::btree::group_btree_axioms, vstd::laws_cmp::group_laws_cmp;

        let na = self.entry_count();
        let nb = other.entry_count();
        let mut fuel: u128 = search_fuel(na, nb);
        let mut seen: BTreeSet<u128> = BTreeSet::new();
        let mut id_a = branches_get(&self.branches, self.head.as_str());
        let mut id_b = branches_get(&other.branches, other.head.as_str());
        assert(seen@ =~= Set::<u128>::empty());
        let ghost target = common_message(self@, other@);
        let mut done = false;
        let mut result: Option<u128> = None;
        while !done
            invariant
                !done ==> common_search(self@.store, other@.store, id_a, id_b, seen@, nat_of(fuel))
                    == target,
                done ==> result == target,
            decreases fuel + if done { 0int } else { 1int },
        {
            if fuel == 0 || (id_a.is_none() && id_b.is_none()) {
                done = true;
                result = None;
            } else {
                let ghost seen0 = seen@;
                let mut found: Option<u128> = None;
                match id_a {
                    Some(x) => {
                        if seen.contains(&x) {
                            found = Some(x);
                        } else {
                            seen.insert(x);
                        }
                    },
                    None => {},
                }
                if found.is_none() {
                    match id_b {
                        Some(y) => {
                            if seen.contains(&y) {
                                found = Some(y);
                            } else {
                                seen.insert(y);
                            }
                        },
                        None => {},
                    }
                }
                if found.is_some() {
                    done = true;
                    result = found;
                } else {
                    id_a = match id_a {
                        Some(x) => match entries_get(&self.store, x) {
                            Some(e) => e.parent,
                            None => None,
                        },
                        None => None,
                    };
                    id_b = match id_b {
                        Some(y) => match entries_get(&other.store, y) {
                            Some(e) => e.parent,
                            None => None,
                        },
                        None => None,
                    };
                    fuel -= 1;
                }
            }
        }
        result
    }

    /// Which branch grows out of which, as distinct pairs of a parent branch
    /// (the empty name for the root) and a child branch.
    pub fn lineage(&self) -> (r: Vec<(String, String)>)
        ensures
            pair_views(r@).no_duplicates(),
            pair_views(r@).to_set() == lineage_edges(self@),
    {
        let ghost v = self@;
        let mut edges: Vec<(String, String)> = Vec::new();
        let keys = entries_keys(&self.store);
        assert(pair_views(edges@) =~= Seq::<(Seq<char>, Seq<char>)>::empty());
        let mut i: usize = 0;
        while i < keys.len()
            invariant
                v == self@,
                i <= keys@.len(),
                keys@.to_set() == entry_map(self.store).dom(),
                pair_views(edges@).no_duplicates(),
                pair_views(edges@).to_set() == Set::new(
                    |p: (Seq<char>, Seq<char>)|
                        exists|j: int| 0 <= j < i && entry_edge(v, keys@[j]) == Some(p),
                ),
            decreases keys@.len() - i,
        {
            let ghost old_set = pair_views(edges@).to_set();
            let k = keys[i];
            assert(keys@.to_set().contains(k));
            let entry = entries_get(&self.store, k).unwrap();
            let mut edge: Option<(String, String)> = None;
            if !entry.branch.as_str().is_empty() {
                let parent_branch: Option<&String> = match entry.parent {
                    Some(p) => match entries_get(&self.store, p) {
                        Some(pe) => Some(&pe.branch),
                        None => None,
                    },
                    None => None,
                };
                match parent_branch {
                    Some(pb) => {
                        if !same_text(pb.as_str(), entry.branch.as_str()) && !pb.as_str().is_empty() {
                            edge = Some((pb.clone(), entry.branch.clone()));
                        }
                    },
                    None => {
                        edge = Some((String::new(), entry.branch.clone()));
                    },
                }
            }
            let ghost e = match &edge {
                Some(x) => Some((x.0@, x.1@)),
                None => None,
            };
            assert(e == entry_edge(v, k));
            match edge {
                Some(x) => {
                    add_edge(&mut edges, x.0, x.1);
                },
                None => {},
            }
            i += 1;
            assert(pair_views(edges@).to_set() =~= Set::new(
                |p: (Seq<char>, Seq<char>)|
                    exists|j: int| 0 <= j < i && entry_edge(v, keys@[j]) == Some(p),
            )) by {
                assert forall|p: (Seq<char>, Seq<char>)| (exists|j: int| 0 <= j < i && entry_edge(v, keys@[j]) == Some(p)) implies pair_views(edges@).to_set().contains(p) by {
                    let j = choose|j: int| 0 <= j < i && entry_edge(v, keys@[j]) == Some(p);
                    if j < i - 1 {
                        assert(old_set.contains(p));
                    }
                }
                assert forall|p: (Seq<char>, Seq<char>)| pair_views(edges@).to_set().contains(p) implies (exists|j: int| 0 <= j < i && entry_edge(v, keys@[j]) == Some(p)) by {
                    if old_set.contains(p) {
                        let j = choose|j: int| 0 <= j < i - 1 && entry_edge(v, keys@[j]) == Some(p);
                        assert(0 <= j < i && entry_edge(v, keys@[j]) == Some(p));
                    } else {
                        assert(entry_edge(v, keys@[i - 1]) == Some(p));
                    }
                }
            }
        }
        let ghost entry_set = pair_views(edges@).to_set();
        assert(entry_set =~= Set::new(
            |p: (Seq<char>, Seq<char>)|
                exists|k: u128| v.store.contains_key(k) && entry_edge(v, k) == Some(p),
        )) by {
            assert forall|p: (Seq<char>, Seq<char>)| entry_set.contains(p) implies (exists|k: u128| v.store.contains_key(k) && entry_edge(v, k) == Some(p)) by {
                let j = choose|j: int| 0 <= j < keys@.len() && entry_edge(v, keys@[j]) == Some(p);
                assert(keys@.to_set().contains(keys@[j]));
            }
            assert forall|p: (Seq<char>, Seq<char>)| (exists|k: u128| v.store.contains_key(k) && entry_edge(v, k) == Some(p)) implies entry_set.contains(p) by {
                let k = choose|k: u128| v.store.contains_key(k) && entry_edge(v, k) == Some(p);
                assert(keys@.to_set().contains(k));
                let j = choose|j: int| 0 <= j < keys@.len() && keys@[j] == k;
            }
        }
        let pairs = branches_pairs(&self.branches);
        let mut i: usize = 0;
        while i < pairs.len()
            invariant
                v == self@,
                i <= pairs@.len(),
                forall|j: int|
                    0 <= j < pairs@.len() ==> v.branches.contains_key(#[trigger] pairs@[j].0@)
                        && v.branches[pairs@[j].0@] == pairs@[j].1,
                pair_views(edges@).no_duplicates(),
                pair_views(edges@).to_set() == entry_set + Set::new(
                    |p: (Seq<char>, Seq<char>)|
                        exists|j: int| 0 <= j < i && branch_edge(v, pairs@[j].0@) == Some(p),
                ),
            decreases pairs@.len() - i,
        {
            let ghost old_set = pair_views(edges@).to_set();
            let name = &pairs[i].0;
            let id = pairs[i].1;
            let parent: Option<&String> = match entries_get(&self.store, id) {
                Some(e) => Some(&e.branch),
                None => None,
            };
            let same = match parent {
                Some(p) => same_text(p.as_str(), name.as_str()),
                None => false,
            };
            let mut edge: Option<(String, String)> = None;
            if !name.as_str().is_empty() && !same {
                let from = match parent {
                    Some(p) => p.clone(),
                    None => String::new(),
                };
                edge = Some((from, name.clone()));
            }
            let ghost e = match &edge {
                Some(x) => Some((x.0@, x.1@)),
                None => None,
            };
            assert(e == branch_edge(v, pairs@[i as int].0@));
            match edge {
                Some(x) => {
                    add_edge(&mut edges, x.0, x.1);
                },
                None => {},
            }
            i += 1;
            assert(pair_views(edges@).to_set() =~= entry_set + Set::new(
                |p: (Seq<char>, Seq<char>)|
                    exists|j: int| 0 <= j < i && branch_edge(v, pairs@[j].0@) == Some(p),
            )) by {
                assert forall|p: (Seq<char>, Seq<char>)| (exists|j: int| 0 <= j < i && branch_edge(v, pairs@[j].0@) == Some(p)) implies pair_views(edges@).to_set().contains(p) by {
                    let j = choose|j: int| 0 <= j < i && branch_edge(v, pairs@[j].0@) == Some(p);
                    if j < i - 1 {
                        assert(old_set.contains(p));
                    }
                }
                assert forall|p: (Seq<char>, Seq<char>)| pair_views(edges@).to_set().contains(p) && !entry_set.contains(p) implies (exists|j: int| 0 <= j < i && branch_edge(v, pairs@[j].0@) == Some(p)) by {
                    if old_set.contains(p) {
                        let j = choose|j: int| 0 <= j < i - 1 && branch_edge(v, pairs@[j].0@) == Some(p);
                        assert(0 <= j < i && branch_edge(v, pairs@[j].0@) == Some(p));
                    } else {
                        assert(branch_edge(v, pairs@[i - 1].0@) == Some(p));
                    }
                }
            }
        }
        let ghost branch_set = pair_views(edges@).to_set();
        let ghost by_pairs = Set::new(
            |p: (Seq<char>, Seq<char>)|
                exists|j: int| 0 <= j < pairs@.len() && branch_edge(v, pairs@[j].0@) == Some(p),
        );
        let ghost by_names = Set::new(
            |p: (Seq<char>, Seq<char>)|
                exists|name: Seq<char>| v.branches.contains_key(name) && branch_edge(v, name) == Some(p),
        );
        assert(by_pairs =~= by_names) by {
            assert forall|p: (Seq<char>, Seq<char>)| by_pairs.contains(p) implies by_names.contains(p) by {
                let j = choose|j: int| 0 <= j < pairs@.len() && branch_edge(v, pairs@[j].0@) == Some(p);
                assert(v.branches.contains_key(pairs@[j].0@));
            }
            assert forall|p: (Seq<char>, Seq<char>)| by_names.contains(p) implies by_pairs.contains(p) by {
                let name = choose|name: Seq<char>| v.branches.contains_key(name) && branch_edge(v, name) == Some(p);
                let j = choose|j: int| 0 <= j < pairs@.len() && #[trigger] pairs@[j].0@ == name;
            }
        }
        assert(branch_set =~= entry_set + by_names);
        if !self.head.as_str().is_empty() {
            let parent: Option<&String> = match branches_get(&self.branches, self.head.as_str()) {
                Some(id) => match entries_get(&self.store, id) {
                    Some(e) => Some(&e.branch),
                    None => None,
                },
                None => None,
            };
            let same = match parent {
                Some(p) => same_text(p.as_str(), self.head.as_str()),
                None => false,
            };
            if !same {
                let from = match parent {
                    Some(p) => p.clone(),
                    None => String::new(),
                };
                assert(head_edge(v) == Some((from@, self.head@)));
                add_edge(&mut edges, from, self.head.clone());
            } else {
                assert(head_edge(v).is_none());
            }
        } else {
            assert(head_edge(v).is_none());
        }
        assert(pair_views(edges@).to_set() =~= lineage_edges(v));
        edges
    }

    /// The current branch of `h` (which shares this history's current branch)
    /// and the id it ends at.
    fn head_branch_of(&self, h: &ChatHistory) -> (r: (String, Option<u128>))
        ensures
            r.0@ == h@.head,
            r.1 == tip(h@, h@.head),
    {
        h.head_branch()
    }

    /// Whether every message of this history is also a message of `other`.
    pub fn is_subset(&self, other: &ChatHistory) -> (r: bool)
        ensures
            r == self@.store.dom().subset_of(other@.store.dom()),
    {
        let keys = entries_keys(&self.store);
        let mut i: usize = 0;
        while i < keys.len()
            invariant
                i <= keys@.len(),
                keys@.to_set() == entry_map(self.store).dom(),
                forall|j: int| 0 <= j < i ==> other@.store.contains_key(#[trigger] keys@[j]),
            decreases keys@.len() - i,
        {
            if entries_get(&other.store, keys[i]).is_none() {
                proof {
                    assert(keys@.to_set().contains(keys@[i as int]));
                    assert(self@.store.contains_key(keys@[i as int]));
                    assert(!other@.store.contains_key(keys@[i as int]));
                }
                return false;
            }
            i += 1;
        }
        proof {
            assert forall|k: u128| self@.store.contains_key(k) implies other@.store.contains_key(k) by {
                assert(keys@.to_set().contains(k));
                let j = choose|j: int| 0 <= j < keys@.len() && keys@[j] == k;
            }
        }
        true
    }

    /// The parent of the entry `id`, if the entry exists and has one.
    pub fn find_parent(&self, id: u128) -> (r: Option<u128>)
        ensures
            r == (if self@.store.contains_key(id) {
                self@.store[id].parent
            } else {
                None
            }),
    {
        match entries_get(&self.store, id) {
            Some(entry) => entry.parent,
            None => None,
        }
    }

    /// The entry that the current branch ends at.
    pub fn last(&self) -> (r: Option<&ChatEntry>)
        ensures
            r.is_some() == (tip(self@, self@.head) matches Some(id) && self@.store.contains_key(
                id,
            )),
            r matches Some(e) ==> e@ == self@.store[tip(self@, self@.head).unwrap()],
    {
        match branches_get(&self.branches, self.head.as_str()) {
            Some(id) => entries_get(&self.store, id),
            None => None,
        }
    }
}

} // verus!

verus! {

impl Default for ChatHistory {
    fn default() -> (r: ChatHistory)
        ensures
            r@.store.dom().is_empty(),
            r@.branches.dom().is_empty(),
            r@.base.is_none(),
            r@.head == "default"@,
    {
        ChatHistory::new()
    }
}

/// A pushed message is what `last` reads back: after appending one content to
/// the current branch, the branch ends at the new entry, which holds that
/// content and hangs off the previous tip.
pub proof fn law_push_then_last(v: HistoryView, c: ContentView, id: u128)
    ensures
        ({
            let w = appended(v, v.head, seq![c], seq![id]);
            &&& tip(w, w.head) == Some(id)
            &&& w.store.contains_key(id)
            &&& w.store[id] == EntryView {
                id,
                parent: tip(v, v.head),
                aside: None,
                branch: v.head,
                content: c,
            }
        }),
{
    let w = appended(v, v.head, seq![c], seq![id]);
    assert(seq![c].drop_last() =~= Seq::<ContentView>::empty());
    assert(seq![id].drop_last() =~= Seq::<u128>::empty());
    assert(appended(v, v.head, Seq::<ContentView>::empty(), Seq::<u128>::empty()) == v);
}

/// A pushed message ends the conversation of the current branch (unless it is
/// itself the base message, where iteration starts after it).
pub proof fn law_push_extends_conversation(v: HistoryView, c: ContentView, id: u128)
    requires
        v.store.dom().finite(),
        v.base != Some(id),
    ensures
        ({
            let w = appended(v, v.head, seq![c], seq![id]);
            &&& conversation(w).len() > 0
            &&& conversation(w).last() == w.store[id]
        }),
{
    law_push_then_last(v, c, id);
    let w = appended(v, v.head, seq![c], seq![id]);
    assert(seq![c].drop_last() =~= Seq::<ContentView>::empty());
    assert(seq![id].drop_last() =~= Seq::<u128>::empty());
    assert(appended(v, v.head, Seq::<ContentView>::empty(), Seq::<u128>::empty()) == v);
    assert(w.store.dom() =~= v.store.dom().insert(id));
    assert(w.store.len() > 0);
    let walk = walk_back(w.store, Some(id), w.base, w.store.len());
    assert(walk == seq![id] + walk_back(w.store, w.store[id].parent, w.base, (w.store.len() - 1) as nat));
    assert(walk.reverse().last() == id);
}

/// Whether the walk back from `cursor` comes to its end (the root, or the
/// entry `stop`) through entries the store holds, within `fuel` steps.
pub open spec fn ends_clean(store: Map<u128, EntryView>, cursor: Option<u128>, stop: Option<u128>, fuel: nat) -> bool
    decreases fuel,
{
    match cursor {
        None => true,
        Some(id) => if Some(id) == stop {
            true
        } else if fuel == 0 || !store.contains_key(id) {
            false
        } else {
            ends_clean(store, store[id].parent, stop, (fuel - 1) as nat)
        },
    }
}

/// A walk that comes to its end is the same with more fuel and with a new
/// entry stored under an id the store did not hold.
proof fn lemma_walk_stable(
    store: Map<u128, EntryView>,
    cursor: Option<u128>,
    stop: Option<u128>,
    fuel: nat,
    more: nat,
    x: u128,
    e: EntryView,
)
    requires
        ends_clean(store, cursor, stop, fuel),
        !store.contains_key(x),
        more >= fuel,
    ensures
        walk_back(store.insert(x, e), cursor, stop, more) == walk_back(store, cursor, stop, fuel),
        ends_clean(store.insert(x, e), cursor, stop, more),
        forall|k: int| 0 <= k < walk_back(store, cursor, stop, fuel).len() ==> store.contains_key(
            #[trigger] walk_back(store, cursor, stop, fuel)[k],
        ),
    decreases fuel,
{
    match cursor {
        None => {},
        Some(id) => {
            if Some(id) != stop {
                lemma_walk_stable(store, store[id].parent, stop, (fuel - 1) as nat, (more - 1) as nat, x, e);
                let rest = walk_back(store, store[id].parent, stop, (fuel - 1) as nat);
                assert(walk_back(store, cursor, stop, fuel) == seq![id] + rest);
                assert forall|k: int| 0 <= k < (seq![id] + rest).len() implies store.contains_key(
                    #[trigger] (seq![id] + rest)[k],
                ) by {
                    if k > 0 {
                        assert((seq![id] + rest)[k] == rest[k - 1]);
                    }
                }
            }
        },
    }
}

/// Whether the conversation of the current branch is whole: it is iterated
/// from the root (no base) and its walk back ends at the root.
pub open spec fn whole_conversation(v: HistoryView) -> bool {
    &&& v.store.dom().finite()
    &&& v.base is None
    &&& ends_clean(v.store, tip(v, v.head), None, v.store.len())
}

/// Pushing a message under a new id onto the current branch of a whole
/// conversation adds it at the end, and the conversation stays whole.
pub proof fn law_push_appends_to_conversation(v: HistoryView, c: ContentView, id: u128)
    requires
        whole_conversation(v),
        !v.store.contains_key(id),
    ensures
        ({
            let w = appended(v, v.head, seq![c], seq![id]);
            &&& whole_conversation(w)
            &&& conversation(w) == conversation(v).push(w.store[id])
            &&& w.store[id].content == c
        }),
{
    law_push_then_last(v, c, id);
    let w = appended(v, v.head, seq![c], seq![id]);
    assert(seq![c].drop_last() =~= Seq::<ContentView>::empty());
    assert(seq![id].drop_last() =~= Seq::<u128>::empty());
    assert(appended(v, v.head, Seq::<ContentView>::empty(), Seq::<u128>::empty()) == v);
    let e = w.store[id];
    assert(w.store == v.store.insert(id, e));
    assert(w.store.dom() =~= v.store.dom().insert(id));
    assert(w.store.len() == v.store.len() + 1);
    let n = v.store.len();
    lemma_walk_stable(v.store, tip(v, v.head), None, n, n, id, e);
    let old_walk = walk_back(v.store, tip(v, v.head), None, n);
    assert(walk_back(w.store, Some(id), None, n + 1) == seq![id] + old_walk);
    assert(ends_clean(w.store, Some(id), None, n + 1));
    assert(tip(w, w.head) == Some(id));
    match tip(v, v.head) {
        Some(end) => {
            assert(conversation(v) == entries_at(v.store, old_walk.reverse()));
            assert((seq![id] + old_walk).reverse() =~= old_walk.reverse().push(id));
            assert forall|k: int| 0 <= k < old_walk.len() implies w.store[#[trigger] old_walk[k]] == v.store[old_walk[k]] by {
                assert(v.store.contains_key(old_walk[k]));
                assert(old_walk[k] != id);
            }
            assert(entries_at(w.store, old_walk.reverse().push(id)) =~= entries_at(v.store, old_walk.reverse()).push(e));
        },
        None => {
            assert(old_walk =~= Seq::<u128>::empty());
            assert((seq![id] + old_walk).reverse() =~= seq![id]);
            assert(conversation(v) =~= Seq::<EntryView>::empty());
            assert(entries_at(w.store, seq![id]) =~= seq![e]);
        },
    }
}

/// Whether ids are new to a store and distinct.
pub open spec fn fresh_ids(store: Map<u128, EntryView>, ids: Seq<u128>) -> bool {
    &&& forall|k: int| 0 <= k < ids.len() ==> !store.contains_key(#[trigger] ids[k])
    &&& forall|a: int, b: int| 0 <= a < b < ids.len() ==> #[trigger] ids[a] != #[trigger] ids[b]
}

/// Extending the current branch of a whole conversation under new ids adds
/// the contents at its end, in order: what a read gives back of a write.
pub proof fn law_extend_appends_to_conversation(v: HistoryView, cs: Seq<ContentView>, ids: Seq<u128>)
    requires
        whole_conversation(v),
        ids.len() == cs.len(),
        fresh_ids(v.store, ids),
    ensures
        whole_conversation(appended(v, v.head, cs, ids)),
        conversation(appended(v, v.head, cs, ids)).map_values(|e: EntryView| e.content)
            == conversation(v).map_values(|e: EntryView| e.content) + cs,
        appended(v, v.head, cs, ids).head == v.head,
        appended(v, v.head, cs, ids).store.len() == v.store.len() + cs.len(),
        forall|k: u128| #[trigger] v.store.contains_key(k) ==> appended(v, v.head, cs, ids).store.contains_key(k)
            && appended(v, v.head, cs, ids).store[k] == v.store[k],
    decreases cs.len(),
{
    if cs.len() == 0 {
        assert(conversation(v).map_values(|e: EntryView| e.content) + cs =~= conversation(v).map_values(
            |e: EntryView| e.content,
        ));
    } else {
        let cs0 = cs.drop_last();
        let ids0 = ids.drop_last();
        assert(fresh_ids(v.store, ids0));
        law_extend_appends_to_conversation(v, cs0, ids0);
        let prev = appended(v, v.head, cs0, ids0);
        let id = ids.last();
        lemma_appended_keys(v, v.head, cs0, ids0);
        assert(!prev.store.contains_key(id)) by {
            if prev.store.contains_key(id) {
                if !v.store.contains_key(id) {
                    let k = choose|k: int| 0 <= k < ids0.len() && ids0[k] == id;
                    assert(ids[k] == ids[ids.len() - 1]);
                }
            }
        }
        law_push_appends_to_conversation(prev, cs.last(), id);
        let step = appended(prev, prev.head, seq![cs.last()], seq![id]);
        assert(seq![cs.last()].drop_last() =~= Seq::<ContentView>::empty());
        assert(seq![id].drop_last() =~= Seq::<u128>::empty());
        assert(appended(prev, prev.head, Seq::<ContentView>::empty(), Seq::<u128>::empty()) == prev);
        assert(step == appended(v, v.head, cs, ids));
        assert(step.store == prev.store.insert(id, step.store[id]));
        assert(step.store.dom() =~= prev.store.dom().insert(id));
        assert forall|k: u128| #[trigger] v.store.contains_key(k) implies step.store.contains_key(k)
            && step.store[k] == v.store[k] by {
            assert(k != id);
        }
        assert(cs0.push(cs.last()) =~= cs);
        assert(conversation(step).map_values(|e: EntryView| e.content) =~= conversation(prev).map_values(
            |e: EntryView| e.content,
        ).push(cs.last()));
        assert(conversation(v).map_values(|e: EntryView| e.content) + cs =~= (conversation(v).map_values(
            |e: EntryView| e.content,
        ) + cs0).push(cs.last()));
    }
}

/// The keys of the store after appending: the old ones and the new ids.
proof fn lemma_appended_keys(v: HistoryView, b: Seq<char>, cs: Seq<ContentView>, ids: Seq<u128>)
    requires
        ids.len() == cs.len(),
    ensures
        forall|x: u128| #[trigger] appended(v, b, cs, ids).store.contains_key(x) ==> v.store.contains_key(x) || exists|k: int|
            0 <= k < ids.len() && ids[k] == x,
        appended(v, b, cs, ids).head == v.head,
        appended(v, b, cs, ids).base == v.base,
        v.store.dom().finite() ==> appended(v, b, cs, ids).store.dom().finite(),
    decreases cs.len(),
{
    if cs.len() > 0 {
        lemma_appended_keys(v, b, cs.drop_last(), ids.drop_last());
        let prev = appended(v, b, cs.drop_last(), ids.drop_last());
        assert(appended(v, b, cs, ids).store.dom() =~= prev.store.dom().insert(ids.last()));
        assert forall|x: u128| #[trigger] appended(v, b, cs, ids).store.contains_key(x) implies v.store.contains_key(x) || exists|k: int|
            0 <= k < ids.len() && ids[k] == x by {
            if x == ids.last() {
                assert(ids[ids.len() - 1] == x);
            } else {
                assert(appended(v, b, cs.drop_last(), ids.drop_last()).store.contains_key(x));
                if !v.store.contains_key(x) {
                    let k = choose|k: int| 0 <= k < ids.drop_last().len() && ids.drop_last()[k] == x;
                    assert(ids[k] == x);
                }
            }
        }
    }
}

/// Switching to the branch that is already current changes nothing, and
/// switching twice is switching once to the second branch.
pub proof fn law_switch(v: HistoryView, a: Seq<char>, b: Seq<char>)
    ensures
        (HistoryView { head: v.head, ..v }) == v,
        (HistoryView { head: b, ..HistoryView { head: a, ..v } }) == (HistoryView { head: b, ..v }),
{
}

/// The common message of a history with itself is the tip of its current branch.
pub proof fn law_common_with_itself(v: HistoryView)
    ensures
        common_message(v, v) == tip(v, v.head),
{
    let t = tip(v, v.head);
    let f = v.store.len() + v.store.len() + 2;
    assert(f > 0);
    match t {
        Some(x) => {
            assert(Set::<u128>::empty().insert(x).contains(x));
        },
        None => {},
    }
}

/// When one history extends the other by a pushed message, their common
/// message is the tip of the shorter one (as long as the new id is fresh: no
/// entry is stored under it or points to it from the old tip).
pub proof fn law_common_of_extension(v: HistoryView, c: ContentView, id: u128)
    requires
        tip(v, v.head).is_some(),
        tip(v, v.head) != Some(id),
        !v.store.contains_key(id),
        v.store.contains_key(tip(v, v.head).unwrap()) ==> v.store[tip(v, v.head).unwrap()].parent
            != Some(id),
    ensures
        common_message(v, appended(v, v.head, seq![c], seq![id])) == tip(v, v.head),
{
    law_push_then_last(v, c, id);
    let w = appended(v, v.head, seq![c], seq![id]);
    assert(seq![c].drop_last() =~= Seq::<ContentView>::empty());
    assert(seq![id].drop_last() =~= Seq::<u128>::empty());
    assert(appended(v, v.head, Seq::<ContentView>::empty(), Seq::<u128>::empty()) == v);
    let t = tip(v, v.head).unwrap();
    let f = v.store.len() + w.store.len() + 2;
    let s1 = Set::<u128>::empty().insert(t);
    let s2 = s1.insert(id);
    assert(!s1.contains(id));
    assert(w.store[id].parent == Some(t));
    assert(next_id(w.store, Some(id)) == Some(t));
    let a2 = next_id(v.store, Some(t));
    let step2 = common_search(v.store, w.store, a2, Some(t), s2, (f - 1) as nat);
    assert(f - 1 > 0);
    if a2 is Some && s2.contains(a2.unwrap()) {
        assert(step2 == a2);
        assert(a2.unwrap() == t);
    } else {
        let s3 = match a2 {
            Some(x) => s2.insert(x),
            None => s2,
        };
        assert(s3.contains(t));
        assert(step2 == Some(t));
    }
}

/// The same holds the other way round: the extension's last message common
/// with the original is the original's tip.
pub proof fn law_common_of_extension_reversed(v: HistoryView, c: ContentView, id: u128)
    requires
        tip(v, v.head).is_some(),
        tip(v, v.head) != Some(id),
        !v.store.contains_key(id),
    ensures
        common_message(appended(v, v.head, seq![c], seq![id]), v) == tip(v, v.head),
{
    law_push_then_last(v, c, id);
    let w = appended(v, v.head, seq![c], seq![id]);
    assert(seq![c].drop_last() =~= Seq::<ContentView>::empty());
    assert(seq![id].drop_last() =~= Seq::<u128>::empty());
    assert(appended(v, v.head, Seq::<ContentView>::empty(), Seq::<u128>::empty()) == v);
    let t = tip(v, v.head).unwrap();
    let f = w.store.len() + v.store.len() + 2;
    let s1 = Set::<u128>::empty().insert(id);
    assert(!s1.contains(t));
    let s2 = s1.insert(t);
    assert(w.store[id].parent == Some(t));
    assert(next_id(w.store, Some(id)) == Some(t));
    assert(f - 1 > 0);
    assert(s2.contains(t));
    assert(common_search(w.store, v.store, Some(t), next_id(v.store, Some(t)), s2, (f - 1) as nat) == Some(t));
}

/// Creating a branch at a parent makes it exist and makes it current.
pub proof fn law_create_branch_exists(v: HistoryView, b: Seq<char>, parent: u128)
    ensures
        ({
            let w = HistoryView {
                branches: if !v.branches.contains_key(b) {
                    v.branches.insert(b, parent)
                } else {
                    v.branches
                },
                head: b,
                ..v
            };
            w.branches.contains_key(b) && w.head == b
        }),
{
}

/// No branch is listed as its own parent: every pair of the lineage names two
/// different branches (or the root and a branch).
pub proof fn law_lineage_no_self_edges(v: HistoryView, p: (Seq<char>, Seq<char>))
    requires
        lineage_edges(v).contains(p),
    ensures
        p.0 != p.1,
{
    if exists|k: u128| v.store.contains_key(k) && entry_edge(v, k) == Some(p) {
        let k = choose|k: u128| v.store.contains_key(k) && entry_edge(v, k) == Some(p);
        assert(entry_edge(v, k) == Some(p));
    } else if exists|name: Seq<char>| v.branches.contains_key(name) && branch_edge(v, name) == Some(p) {
        let name = choose|name: Seq<char>| v.branches.contains_key(name) && branch_edge(v, name) == Some(p);
        assert(branch_edge(v, name) == Some(p));
    } else {
        assert(head_edge(v) == Some(p));
    }
}

/// Whether `run` lists entries of branch `b` that follow one another back
/// along parent links: each is stored on branch `b`, each after the first is
/// the parent of the one before, and none appears twice.
pub open spec fn branch_run(store: Map<u128, EntryView>, b: Seq<char>, run: Seq<u128>) -> bool {
    &&& run.no_duplicates()
    &&& forall|m: int| 0 <= m < run.len() ==> store.contains_key(#[trigger] run[m]) && store[run[m]].branch == b
    &&& forall|m: int| 0 <= m < run.len() - 1 ==> store[#[trigger] run[m]].parent == Some(run[m + 1])
}

/// A renaming walk never takes an entry off the new name: an entry that has
/// it keeps it.
proof fn lemma_rename_keeps_new(
    store: Map<u128, EntryView>,
    cursor: u128,
    old: Seq<char>,
    new: Seq<char>,
    fuel: nat,
    k: u128,
)
    requires
        store.contains_key(k),
        store[k].branch == new,
    ensures
        rename_walk(store, cursor, old, new, fuel).contains_key(k),
        rename_walk(store, cursor, old, new, fuel)[k].branch == new,
    decreases fuel,
{
    if !(fuel == 0 || !store.contains_key(cursor) || store[cursor].branch != old) {
        let node = store[cursor];
        let next = store.insert(cursor, EntryView { branch: new, ..node });
        if let Some(p) = node.parent {
            lemma_rename_keeps_new(next, p, old, new, (fuel - 1) as nat, k);
        }
    }
}

/// A renaming walk keeps the set of stored ids and leaves every entry that is
/// not on the old branch as it was.
proof fn lemma_rename_frame(
    store: Map<u128, EntryView>,
    cursor: u128,
    old: Seq<char>,
    new: Seq<char>,
    fuel: nat,
)
    ensures
        rename_walk(store, cursor, old, new, fuel).dom() == store.dom(),
        forall|k: u128|
            store.contains_key(k) && store[k].branch != old ==> #[trigger] rename_walk(
                store,
                cursor,
                old,
                new,
                fuel,
            )[k] == store[k],
    decreases fuel,
{
    if !(fuel == 0 || !store.contains_key(cursor) || store[cursor].branch != old) {
        let node = store[cursor];
        let next = store.insert(cursor, EntryView { branch: new, ..node });
        assert(next.dom() == store.dom());
        if let Some(p) = node.parent {
            lemma_rename_frame(next, p, old, new, (fuel - 1) as nat);
        }
    }
}

/// A renaming walk with enough fuel that starts at the first entry of a run
/// of branch `old` moves every entry of the run to `new`.
proof fn lemma_rename_moves_run(
    store: Map<u128, EntryView>,
    run: Seq<u128>,
    old: Seq<char>,
    new: Seq<char>,
    fuel: nat,
)
    requires
        run.len() >= 1,
        run.len() <= fuel,
        branch_run(store, old, run),
    ensures
        forall|m: int|
            0 <= m < run.len() ==> rename_walk(store, run[0], old, new, fuel).contains_key(#[trigger] run[m])
                && rename_walk(store, run[0], old, new, fuel)[run[m]].branch == new,
    decreases run.len(),
{
    let c = run[0];
    let node = store[c];
    let next = store.insert(c, EntryView { branch: new, ..node });
    let result = rename_walk(store, c, old, new, fuel);
    match node.parent {
        None => {
            if run.len() > 1 {
                assert(store[run[0]].parent == Some(run[1]));
            }
            assert(result == next);
        },
        Some(p) => {
            assert(result == rename_walk(next, p, old, new, (fuel - 1) as nat));
            lemma_rename_keeps_new(next, p, old, new, (fuel - 1) as nat, c);
            if run.len() > 1 {
                let rest = run.drop_first();
                assert(store[run[0]].parent == Some(run[1]));
                assert(rest[0] == p);
                assert forall|m: int| 0 <= m < rest.len() implies next.contains_key(#[trigger] rest[m])
                    && next[rest[m]].branch == old by {
                    assert(rest[m] == run[m + 1]);
                    assert(run[m + 1] != run[0]);
                }
                assert forall|m: int| 0 <= m < rest.len() - 1 implies next[#[trigger] rest[m]].parent == Some(rest[m + 1]) by {
                    assert(rest[m] == run[m + 1]);
                    assert(run[m + 1] != run[0]);
                    assert(store[run[m + 1]].parent == Some(run[m + 2]));
                }
                assert(rest.no_duplicates()) by {
                    assert forall|i: int, j: int| 0 <= i < rest.len() && 0 <= j < rest.len() && i != j implies rest[i] != rest[j] by {
                        assert(rest[i] == run[i + 1] && rest[j] == run[j + 1]);
                    }
                }
                lemma_rename_moves_run(next, rest, old, new, (fuel - 1) as nat);
                assert forall|m: int| 0 <= m < run.len() implies result.contains_key(#[trigger] run[m])
                    && result[run[m]].branch == new by {
                    if m > 0 {
                        assert(run[m] == rest[m - 1]);
                    }
                }
            }
        },
    }
}

/// Renaming branch `b` to `n` moves the whole run of `b`: every entry reached
/// from the old tip back along parent links, up to the first entry of another
/// branch, ends on the new name, none of them stays on the old one. No entry
/// is added or removed, and the entries of other branches are left as they were.
pub proof fn law_rename_moves_whole_run(v: HistoryView, b: Seq<char>, n: Seq<char>, run: Seq<u128>)
    requires
        v.store.dom().finite(),
        v.branches.contains_key(b),
        run.len() >= 1,
        run[0] == v.branches[b],
        branch_run(v.store, b, run),
    ensures
        forall|m: int|
            0 <= m < run.len() ==> rename_walk(v.store, v.branches[b], b, n, v.store.len()).contains_key(
                #[trigger] run[m],
            ) && rename_walk(v.store, v.branches[b], b, n, v.store.len())[run[m]].branch == n,
        rename_walk(v.store, v.branches[b], b, n, v.store.len()).dom() == v.store.dom(),
        forall|k: u128|
            v.store.contains_key(k) && v.store[k].branch != b ==> #[trigger] rename_walk(
                v.store,
                v.branches[b],
                b,
                n,
                v.store.len(),
            )[k] == v.store[k],
{
    lemma_rename_frame(v.store, v.branches[b], b, n, v.store.len());
    assert(run.to_set().subset_of(v.store.dom())) by {
        assert forall|x: u128| run.to_set().contains(x) implies v.store.dom().contains(x) by {
            let m = choose|m: int| 0 <= m < run.len() && run[m] == x;
            assert(v.store.contains_key(run[m]));
        }
    }
    run.unique_seq_to_set();
    vstd::set_lib::lemma_len_subset(run.to_set(), v.store.dom());
    lemma_rename_moves_run(v.store, run, b, n, v.store.len());
}

} // verus!

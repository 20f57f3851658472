//! The workflows the editor knows, by name. The store keeps them in memory;
//! reading and writing the file they live in is the host's part.
use vstd::prelude::*;

use crate::chat::same_text;
use crate::graph::{GraphView, ShadowGraph};

verus! {

/// Access to stored workflows by name.
pub trait WorkflowStore {
    /// The workflow stored under `key`, if any.
    fn get(&self, key: &str) -> Option<ShadowGraph>;

    /// Stores a workflow under `key`, in place of the one stored there.
    fn put(&mut self, key: &str, value: ShadowGraph);

    /// Whether a workflow is stored under `key`.
    fn contains(&self, key: &str) -> bool;

    /// The names of the stored workflows.
    fn names(&self) -> Vec<String>;

    /// The description of the workflow stored under `key`; empty when there is none.
    fn description(&self, key: &str) -> String;

    /// The input schema of the workflow stored under `key`; empty when there is none.
    fn schema(&self, key: &str) -> String;

    /// Moves the workflow stored under `old_name` to `new_name`.
    fn rename(&mut self, old_name: &str, new_name: &str);

    /// Drops the workflow stored under `key`.
    fn remove(&mut self, key: &str);
}

/// Workflows kept in memory, each name once; the file they are saved to.
#[derive(Debug)]
pub struct WorkflowStoreFile {
    path: std::path::PathBuf,
    workflows: Vec<(String, ShadowGraph)>,
}

/// Whether the name `k` is among the entries, and at which position.
pub open spec fn holds_key(v: Seq<(String, ShadowGraph)>, k: Seq<char>) -> bool {
    exists|i: int| 0 <= i < v.len() && #[trigger] v[i].0@ == k
}

impl View for WorkflowStoreFile {
    type V = Map<Seq<char>, GraphView>;

    closed spec fn view(&self) -> Map<Seq<char>, GraphView> {
        Map::new(|k: Seq<char>| holds_key(self.workflows@, k), |k: Seq<char>| entry_of(self.workflows@, k))
    }
}

impl WorkflowStoreFile {
    /// No name is held twice.
    #[verifier::type_invariant]
    closed spec fn distinct(self) -> bool {
        forall|i: int, j: int|
            0 <= i < j < self.workflows@.len() ==> #[trigger] self.workflows@[i].0@
                != #[trigger] self.workflows@[j].0@
    }

    /// The file the workflows are saved to.
    pub closed spec fn file(self) -> std::path::PathBuf {
        self.path
    }

    /// The file the workflows are saved to.
    pub fn path(&self) -> (r: &std::path::PathBuf)
        ensures
            *r == self.file(),
    {
        &self.path
    }

    /// A store with no workflows, saved to `path`.
    pub fn new(path: std::path::PathBuf) -> (r: Self)
        ensures
            r@ == Map::<Seq<char>, GraphView>::empty(),
            r.file() == path,
    {
        let r = WorkflowStoreFile { path, workflows: Vec::new() };
        assert(r@ =~= Map::<Seq<char>, GraphView>::empty());
        r
    }

    /// The position of the workflow stored under `key`.
    fn position(&self, key: &str) -> (r: Option<usize>)
        ensures
            r is Some == self@.contains_key(key@),
            r matches Some(i) ==> i < self.workflows@.len() && self.workflows@[i as int].0@ == key@
                && self@[key@] == self.workflows@[i as int].1@,
    {
        proof {
            use_type_invariant(self);
        }
        let mut i: usize = 0;
        while i < self.workflows.len()
            invariant
                i <= self.workflows@.len(),
                forall|a: int, b: int|
                    0 <= a < b < self.workflows@.len() ==> #[trigger] self.workflows@[a].0@
                        != #[trigger] self.workflows@[b].0@,
                forall|k: int| 0 <= k < i ==> #[trigger] self.workflows@[k].0@ != key@,
            decreases self.workflows@.len() - i,
        {
            if same_text(self.workflows[i].0.as_str(), key) {
                proof {
                    assert(holds_key(self.workflows@, key@));
                    let j = choose|j: int|
                        0 <= j < self.workflows@.len() && #[trigger] self.workflows@[j].0@ == key@;
                    if j != i {
                        if j < i {
                            assert(self.workflows@[j].0@ != self.workflows@[i as int].0@);
                        } else {
                            assert(self.workflows@[i as int].0@ != self.workflows@[j].0@);
                        }
                    }
                }
                return Some(i);
            }
            i += 1;
        }
        None
    }

    /// The workflow stored under `key`, if any.
    pub fn get(&self, key: &str) -> (r: Option<ShadowGraph>)
        ensures
            r is Some == self@.contains_key(key@),
            r matches Some(g) ==> g@ == self@[key@],
    {
        match self.position(key) {
            Some(i) => Some(self.workflows[i].1.duplicate()),
            None => None,
        }
    }

    /// Whether a workflow is stored under `key`.
    pub fn contains(&self, key: &str) -> (r: bool)
        ensures
            r == self@.contains_key(key@),
    {
        self.position(key).is_some()
    }

    /// Stores a workflow under `key`, in place of the one stored there.
    pub fn put(&mut self, key: &str, value: ShadowGraph)
        ensures
            final(self)@ == old(self)@.insert(key@, value@),
            final(self).file() == old(self).file(),
    {
        proof {
            use_type_invariant(&*self);
        }
        let ghost before = self.workflows@;
        let ghost vv = value@;
        let ghost target = old(self)@.insert(key@, vv);
        let mut items: Vec<(String, ShadowGraph)> = Vec::new();
        std::mem::swap(&mut items, &mut self.workflows);
        match self.position_in(&items, key) {
            Some(i) => {
                items.set(i, (key.to_owned(), value));
                proof {
                    assert forall|a: int, b: int|
                        0 <= a < b < items@.len() implies #[trigger] items@[a].0@ != #[trigger] items@[b].0@ by {
                        assert(before[a].0@ != before[b].0@);
                        if a == i {
                            assert(before[i as int].0@ == key@);
                        }
                        if b == i {
                            assert(before[i as int].0@ == key@);
                        }
                    }
                }
                self.workflows = items;
                proof {
                    lemma_found_put(before, self.workflows@, i as int, key@, vv);
                    assert(self@ =~= target) by {
                        assert forall|k: Seq<char>| #[trigger] self@.contains_key(k) == target.contains_key(k) by {
                            lemma_view_key(self.workflows@, k);
                            lemma_view_key(before, k);
                        }
                        assert forall|k: Seq<char>| #[trigger] self@.contains_key(k) implies self@[k] == target[k] by {
                        }
                    }
                }
            },
            None => {
                items.push((key.to_owned(), value));
                proof {
                    assert forall|a: int, b: int|
                        0 <= a < b < items@.len() implies #[trigger] items@[a].0@ != #[trigger] items@[b].0@ by {
                        if b == before.len() {
                            assert(items@[a] == before[a]);
                        } else {
                            assert(before[a].0@ != before[b].0@);
                        }
                    }
                }
                self.workflows = items;
                proof {
                    lemma_pushed_put(before, self.workflows@, key@, vv);
                    assert(self@ =~= target) by {
                        assert forall|k: Seq<char>| #[trigger] self@.contains_key(k) == target.contains_key(k) by {
                            lemma_view_key(self.workflows@, k);
                            lemma_view_key(before, k);
                        }
                        assert forall|k: Seq<char>| #[trigger] self@.contains_key(k) implies self@[k] == target[k] by {
                        }
                    }
                }
            },
        }
    }

    /// The position of `key` among some entries whose names occur once each.
    fn position_in(&self, items: &Vec<(String, ShadowGraph)>, key: &str) -> (r: Option<usize>)
        ensures
            r is Some == holds_key(items@, key@),
            r matches Some(i) ==> i < items@.len() && items@[i as int].0@ == key@,
            r is None ==> forall|k: int| 0 <= k < items@.len() ==> #[trigger] items@[k].0@ != key@,
    {
        let mut i: usize = 0;
        while i < items.len()
            invariant
                i <= items@.len(),
                forall|k: int| 0 <= k < i ==> #[trigger] items@[k].0@ != key@,
            decreases items@.len() - i,
        {
            if same_text(items[i].0.as_str(), key) {
                return Some(i);
            }
            i += 1;
        }
        None
    }

    /// The names of the stored workflows, in the order they were first stored.
    pub fn names(&self) -> (r: Vec<String>)
        ensures
            forall|k: Seq<char>| self@.contains_key(k) <==> exists|i: int| 0 <= i < r@.len() && #[trigger] r@[i]@ == k,
    {
        let mut out: Vec<String> = Vec::new();
        let mut i: usize = 0;
        while i < self.workflows.len()
            invariant
                i <= self.workflows@.len(),
                out@.len() == i,
                forall|k: int| 0 <= k < i ==> #[trigger] out@[k]@ == self.workflows@[k].0@,
            decreases self.workflows@.len() - i,
        {
            out.push(self.workflows[i].0.clone());
            i += 1;
        }
        proof {
            assert forall|k: Seq<char>| self@.contains_key(k) <==> exists|i: int| 0 <= i < out@.len() && #[trigger] out@[i]@ == k by {
                if self@.contains_key(k) {
                    let j = choose|j: int| 0 <= j < self.workflows@.len() && #[trigger] self.workflows@[j].0@ == k;
                    assert(out@[j]@ == k);
                }
                if exists|i: int| 0 <= i < out@.len() && #[trigger] out@[i]@ == k {
                    let j = choose|j: int| 0 <= j < out@.len() && #[trigger] out@[j]@ == k;
                    assert(self.workflows@[j].0@ == k);
                }
            }
        }
        out
    }

    /// The description of the workflow stored under `key`; empty when there is none.
    pub fn description(&self, key: &str) -> (r: String)
        ensures
            r@ == if self@.contains_key(key@) { self@[key@].description } else { Seq::empty() },
    {
        match self.position(key) {
            Some(i) => (*self.workflows[i].1.description).clone(),
            None => String::new(),
        }
    }

    /// The input schema of the workflow stored under `key`; empty when there is none.
    pub fn schema(&self, key: &str) -> (r: String)
        ensures
            r@ == if self@.contains_key(key@) { self@[key@].schema } else { Seq::empty() },
    {
        match self.position(key) {
            Some(i) => (*self.workflows[i].1.schema).clone(),
            None => String::new(),
        }
    }

    /// Drops the workflow stored under `key`.
    pub fn remove(&mut self, key: &str)
        ensures
            final(self)@ == old(self)@.remove(key@),
            final(self).file() == old(self).file(),
    {
        proof {
            use_type_invariant(&*self);
        }
        match self.position(key) {
            Some(idx) => {
                let ghost before = self.workflows@;
                let mut items: Vec<(String, ShadowGraph)> = Vec::new();
                std::mem::swap(&mut items, &mut self.workflows);
                items.remove(idx);
                proof {
                    assert forall|a: int, b: int|
                        0 <= a < b < items@.len() implies #[trigger] items@[a].0@ != #[trigger] items@[b].0@ by {
                        let a2 = if a < idx { a } else { a + 1 };
                        let b2 = if b < idx { b } else { b + 1 };
                        assert(items@[a] == before[a2]);
                        assert(items@[b] == before[b2]);
                    }
                }
                self.workflows = items;
                proof {
                    assert forall|k: Seq<char>| #[trigger] self@.contains_key(k) == old(self)@.remove(key@).contains_key(k) by {
                        if holds_key(self.workflows@, k) {
                            let j = choose|j: int| 0 <= j < self.workflows@.len() && #[trigger] self.workflows@[j].0@ == k;
                            let j2 = if j < idx { j } else { j + 1 };
                            assert(before[j2].0@ == k);
                            assert(j2 != idx);
                        }
                        if holds_key(before, k) && k != key@ {
                            let j = choose|j: int| 0 <= j < before.len() && #[trigger] before[j].0@ == k;
                            assert(j != idx);
                            if j < idx {
                                assert(self.workflows@[j].0@ == k);
                            } else {
                                assert(self.workflows@[j - 1].0@ == k);
                            }
                        }
                    }
                    assert forall|k: Seq<char>| #[trigger] self@.contains_key(k) implies self@[k] == old(self)@.remove(key@)[k] by {
                        let j = choose|j: int| 0 <= j < self.workflows@.len() && #[trigger] self.workflows@[j].0@ == k;
                        let j2 = if j < idx { j } else { j + 1 };
                        assert(self.workflows@[j] == before[j2]);
                        let j3 = choose|j3: int| 0 <= j3 < before.len() && #[trigger] before[j3].0@ == k;
                        if j3 != j2 {
                            if j3 < j2 {
                                assert(before[j3].0@ != before[j2].0@);
                            } else {
                                assert(before[j2].0@ != before[j3].0@);
                            }
                        }
                    }
                    assert(self@ =~= old(self)@.remove(key@));
                }
            },
            None => {
                assert(self@ =~= old(self)@.remove(key@));
            },
        }
    }

    /// Moves the workflow stored under `old_name` to `new_name`; nothing
    /// changes when no workflow is stored under `old_name`.
    pub fn rename(&mut self, old_name: &str, new_name: &str)
        ensures
            old(self)@.contains_key(old_name@) ==> final(self)@ == old(self)@.remove(old_name@).insert(
                new_name@,
                old(self)@[old_name@],
            ),
            !old(self)@.contains_key(old_name@) ==> final(self)@ == old(self)@,
            final(self).file() == old(self).file(),
    {
        match self.get(old_name) {
            Some(g) => {
                self.remove(old_name);
                self.put(new_name, g);
            },
            None => {},
        }
    }
}

impl WorkflowStore for WorkflowStoreFile {
    fn get(&self, key: &str) -> Option<ShadowGraph> {
        WorkflowStoreFile::get(self, key)
    }

    fn put(&mut self, key: &str, value: ShadowGraph) {
        WorkflowStoreFile::put(self, key, value)
    }

    fn contains(&self, key: &str) -> bool {
        WorkflowStoreFile::contains(self, key)
    }

    fn names(&self) -> Vec<String> {
        WorkflowStoreFile::names(self)
    }

    fn description(&self, key: &str) -> String {
        WorkflowStoreFile::description(self, key)
    }

    fn schema(&self, key: &str) -> String {
        WorkflowStoreFile::schema(self, key)
    }

    fn rename(&mut self, old_name: &str, new_name: &str) {
        WorkflowStoreFile::rename(self, old_name, new_name)
    }

    fn remove(&mut self, key: &str) {
        WorkflowStoreFile::remove(self, key)
    }
}

/// A stored workflow reads back as it was stored.
pub proof fn law_put_then_get(before: Map<Seq<char>, GraphView>, key: Seq<char>, g: GraphView)
    ensures
        before.insert(key, g).contains_key(key),
        before.insert(key, g)[key] == g,
{
}

/// The entry stored under a name, by position.
pub open spec fn entry_of(v: Seq<(String, ShadowGraph)>, k: Seq<char>) -> GraphView {
    v[choose|i: int| 0 <= i < v.len() && #[trigger] v[i].0@ == k].1@
}

/// Names that occur once each.
pub open spec fn names_distinct(v: Seq<(String, ShadowGraph)>) -> bool {
    forall|a: int, b: int| 0 <= a < b < v.len() ==> #[trigger] v[a].0@ != #[trigger] v[b].0@
}

proof fn lemma_view_key(v: Seq<(String, ShadowGraph)>, k: Seq<char>)
    ensures
        holds_key(v, k) == (exists|i: int| 0 <= i < v.len() && #[trigger] v[i].0@ == k),
{
}

/// The entry under a name is the one at any position that holds the name.
proof fn lemma_entry_at(v: Seq<(String, ShadowGraph)>, k: Seq<char>, i: int)
    requires
        names_distinct(v),
        0 <= i < v.len(),
        v[i].0@ == k,
    ensures
        holds_key(v, k),
        entry_of(v, k) == v[i].1@,
{
    let j = choose|j: int| 0 <= j < v.len() && #[trigger] v[j].0@ == k;
    if j != i {
        if j < i {
            assert(v[j].0@ != v[i].0@);
        } else {
            assert(v[i].0@ != v[j].0@);
        }
    }
}

proof fn lemma_found_put(before: Seq<(String, ShadowGraph)>, after: Seq<(String, ShadowGraph)>, i: int, key: Seq<char>, vv: GraphView)
    requires
        names_distinct(before),
        names_distinct(after),
        0 <= i < before.len(),
        before[i].0@ == key,
        after.len() == before.len(),
        after[i].0@ == key,
        after[i].1@ == vv,
        forall|j: int| 0 <= j < before.len() && j != i ==> after[j] == before[j],
    ensures
        forall|k: Seq<char>| #[trigger] holds_key(after, k) == (holds_key(before, k) || k == key),
        forall|k: Seq<char>| holds_key(after, k) ==> #[trigger] entry_of(after, k) == if k == key { vv } else { entry_of(before, k) },
{
    assert forall|k: Seq<char>| #[trigger] holds_key(after, k) == (holds_key(before, k) || k == key) by {
        if holds_key(after, k) {
            let j = choose|j: int| 0 <= j < after.len() && #[trigger] after[j].0@ == k;
            if j != i {
                assert(before[j].0@ == k);
            }
        }
        if holds_key(before, k) {
            let j = choose|j: int| 0 <= j < before.len() && #[trigger] before[j].0@ == k;
            if j != i {
                assert(after[j].0@ == k);
            } else {
                assert(after[i].0@ == k);
            }
        }
        if k == key {
            assert(after[i].0@ == k);
        }
    }
    assert forall|k: Seq<char>| holds_key(after, k) implies #[trigger] entry_of(after, k) == if k == key { vv } else { entry_of(before, k) } by {
        let j = choose|j: int| 0 <= j < after.len() && #[trigger] after[j].0@ == k;
        lemma_entry_at(after, k, j);
        if k == key {
            lemma_entry_at(after, k, i);
        } else {
            assert(j != i);
            lemma_entry_at(before, k, j);
        }
    }
}

proof fn lemma_pushed_put(before: Seq<(String, ShadowGraph)>, after: Seq<(String, ShadowGraph)>, key: Seq<char>, vv: GraphView)
    requires
        names_distinct(before),
        names_distinct(after),
        after.len() == before.len() + 1,
        after[before.len() as int].0@ == key,
        after[before.len() as int].1@ == vv,
        forall|j: int| 0 <= j < before.len() ==> after[j] == before[j],
    ensures
        forall|k: Seq<char>| #[trigger] holds_key(after, k) == (holds_key(before, k) || k == key),
        forall|k: Seq<char>| holds_key(after, k) ==> #[trigger] entry_of(after, k) == if k == key { vv } else { entry_of(before, k) },
{
    let n = before.len() as int;
    assert forall|k: Seq<char>| #[trigger] holds_key(after, k) == (holds_key(before, k) || k == key) by {
        if holds_key(after, k) {
            let j = choose|j: int| 0 <= j < after.len() && #[trigger] after[j].0@ == k;
            if j != n {
                assert(before[j].0@ == k);
            }
        }
        if holds_key(before, k) {
            let j = choose|j: int| 0 <= j < before.len() && #[trigger] before[j].0@ == k;
            assert(after[j].0@ == k);
        }
        if k == key {
            assert(after[n].0@ == k);
        }
    }
    assert forall|k: Seq<char>| holds_key(after, k) implies #[trigger] entry_of(after, k) == if k == key { vv } else { entry_of(before, k) } by {
        let j = choose|j: int| 0 <= j < after.len() && #[trigger] after[j].0@ == k;
        lemma_entry_at(after, k, j);
        if k == key {
            lemma_entry_at(after, k, n);
        } else {
            assert(j != n);
            lemma_entry_at(before, k, j);
        }
    }
}

} // verus!

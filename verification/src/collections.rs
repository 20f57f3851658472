//! The persistent maps and sets of the `im` crate that the library keeps its
//! state in, each instantiation with a name for its contents and the methods
//! that the library calls on it.
use vstd::prelude::*;

use crate::chat::ChatEntry;
use crate::graph::NodeRole;

verus! {

#[verifier::external_type_specification]
#[verifier::external_body]
#[verifier::reject_recursive_types(K)]
#[verifier::reject_recursive_types(V)]
pub struct ExOrdMap<K, V>(im::OrdMap<K, V>);

#[verifier::external_type_specification]
#[verifier::external_body]
#[verifier::reject_recursive_types(A)]
pub struct ExOrdSet<A>(im::OrdSet<A>);

/// `im::OrdMap::clone`: the clone shares the tree of the map it copies and holds
/// the same bindings.
pub assume_specification<K, V>[ <im::OrdMap<K, V> as Clone>::clone ](m: &im::OrdMap<K, V>) -> (r:
    im::OrdMap<K, V>)
    ensures
        r == *m,
;

/// `im::OrdSet::clone`: the clone shares the tree of the set it copies and holds
/// the same members.
pub assume_specification<A>[ <im::OrdSet<A> as Clone>::clone ](s: &im::OrdSet<A>) -> (r:
    im::OrdSet<A>)
    ensures
        r == *s,
;

// ---------------------------------------------------------------------------
// Chat entries keyed by message id
// ---------------------------------------------------------------------------

/// What a map of chat entries holds: each message id with its entry.
pub uninterp spec fn entry_map(m: im::OrdMap<u128, ChatEntry>) -> Map<u128, ChatEntry>;

/// `im::OrdMap::new`: a map with no entries.
#[verifier::external_body]
pub(crate) fn entries_new() -> (r: im::OrdMap<u128, ChatEntry>)
    ensures
        entry_map(r).dom().is_empty(),
{
    im::OrdMap::new()
}

/// `im::OrdMap::get`: the entry stored under `k`, if any.
#[verifier::external_body]
pub(crate) fn entries_get<'a>(m: &'a im::OrdMap<u128, ChatEntry>, k: u128) -> (r: Option<
    &'a ChatEntry,
>)
    ensures
        r.is_some() == entry_map(*m).contains_key(k),
        r matches Some(e) ==> *e == entry_map(*m)[k],
{
    m.get(&k)
}

/// `im::OrdMap::update`: a new map with `k` bound to `v`, the old map unchanged.
#[verifier::external_body]
pub(crate) fn entries_update(m: &im::OrdMap<u128, ChatEntry>, k: u128, v: ChatEntry) -> (r:
    im::OrdMap<u128, ChatEntry>)
    ensures
        entry_map(r) == entry_map(*m).insert(k, v),
{
    m.update(k, v)
}

/// `im::OrdMap::without`: a new map without the binding of `k`.
#[verifier::external_body]
pub(crate) fn entries_without(m: &im::OrdMap<u128, ChatEntry>, k: u128) -> (r: im::OrdMap<
    u128,
    ChatEntry,
>)
    ensures
        entry_map(r) == entry_map(*m).remove(k),
{
    m.without(&k)
}

/// `im::OrdMap::keys`: the ids of the map, in ascending order.
#[verifier::external_body]
pub(crate) fn entries_keys(m: &im::OrdMap<u128, ChatEntry>) -> (r: Vec<u128>)
    ensures
        r@.to_set() == entry_map(*m).dom(),
        forall|i: int, j: int| 0 <= i < j < r@.len() ==> r@[i] < r@[j],
{
    m.keys().copied().collect()
}

// ---------------------------------------------------------------------------
// Branch names and the message each one ends at
// ---------------------------------------------------------------------------

/// What a map of branches holds: each branch name (as text) with its last message id.
pub uninterp spec fn branch_map(m: im::OrdMap<String, u128>) -> Map<Seq<char>, u128>;

/// `im::OrdMap::new`: a map with no branches.
#[verifier::external_body]
pub(crate) fn branches_new() -> (r: im::OrdMap<String, u128>)
    ensures
        branch_map(r).dom().is_empty(),
{
    im::OrdMap::new()
}

/// `im::OrdMap::get` with a `&str` key: strings compare by their text.
#[verifier::external_body]
pub(crate) fn branches_get(m: &im::OrdMap<String, u128>, k: &str) -> (r: Option<u128>)
    ensures
        r.is_some() == branch_map(*m).contains_key(k@),
        r matches Some(v) ==> v == branch_map(*m)[k@],
{
    m.get(k).copied()
}

/// `im::OrdMap::update`: a new map with `k` bound to `v`.
#[verifier::external_body]
pub(crate) fn branches_update(m: &im::OrdMap<String, u128>, k: String, v: u128) -> (r:
    im::OrdMap<String, u128>)
    ensures
        branch_map(r) == branch_map(*m).insert(k@, v),
{
    m.update(k, v)
}

/// `im::OrdMap::without` with a `&str` key.
#[verifier::external_body]
pub(crate) fn branches_without(m: &im::OrdMap<String, u128>, k: &str) -> (r: im::OrdMap<
    String,
    u128,
>)
    ensures
        branch_map(r) == branch_map(*m).remove(k@),
{
    m.without(k)
}

/// `im::OrdMap::iter`: every branch with its id, each name once.
#[verifier::external_body]
pub(crate) fn branches_pairs(m: &im::OrdMap<String, u128>) -> (r: Vec<(String, u128)>)
    ensures
        forall|i: int|
            0 <= i < r@.len() ==> branch_map(*m).contains_key(#[trigger] r@[i].0@)
                && branch_map(*m)[r@[i].0@] == r@[i].1,
        forall|k: Seq<char>|
            branch_map(*m).contains_key(k) ==> exists|i: int|
                0 <= i < r@.len() && #[trigger] r@[i].0@ == k,
        forall|i: int, j: int| 0 <= i < j < r@.len() ==> r@[i].0@ != r@[j].0@,
{
    m.iter().map(|(k, v)| (k.clone(), *v)).collect()
}

} // verus!

verus! {

// ---------------------------------------------------------------------------
// Sets of node ids
// ---------------------------------------------------------------------------

/// What a set of node ids holds.
pub uninterp spec fn id_set(s: im::OrdSet<usize>) -> Set<usize>;

/// `im::OrdSet::new`: an empty set.
#[verifier::external_body]
pub(crate) fn ids_new() -> (r: im::OrdSet<usize>)
    ensures
        id_set(r).is_empty(),
{
    im::OrdSet::new()
}

/// `im::OrdSet::contains`.
#[verifier::external_body]
pub(crate) fn ids_contains(s: &im::OrdSet<usize>, v: usize) -> (r: bool)
    ensures
        r == id_set(*s).contains(v),
{
    s.contains(&v)
}

/// `im::OrdSet::update`: a new set that also holds `v`.
#[verifier::external_body]
pub(crate) fn ids_update(s: &im::OrdSet<usize>, v: usize) -> (r: im::OrdSet<usize>)
    ensures
        id_set(r) == id_set(*s).insert(v),
{
    s.update(v)
}

/// `im::OrdSet::without`: a new set without `v`.
#[verifier::external_body]
pub(crate) fn ids_without(s: &im::OrdSet<usize>, v: usize) -> (r: im::OrdSet<usize>)
    ensures
        id_set(r) == id_set(*s).remove(v),
{
    s.without(&v)
}

/// `im::OrdSet::iter`: the ids of the set, in ascending order.
#[verifier::external_body]
pub(crate) fn ids_items(s: &im::OrdSet<usize>) -> (r: Vec<usize>)
    ensures
        r@.to_set() == id_set(*s),
        forall|i: int, j: int| 0 <= i < j < r@.len() ==> r@[i] < r@[j],
{
    s.iter().copied().collect()
}

/// `im::OrdSet::is_empty`: whether the set holds no id.
#[verifier::external_body]
pub(crate) fn ids_is_empty(s: &im::OrdSet<usize>) -> (r: bool)
    ensures
        r == (id_set(*s) == Set::<usize>::empty()),
{
    s.is_empty()
}

/// `im::OrdSet::ptr_eq`: whether two sets share their root. Sets that do
/// hold the same ids; a set and its clone (which shares the root, see the
/// clone specification above) do. Sets that do not share may still be equal.
#[verifier::external_body]
pub(crate) fn ids_ptr_eq(a: &im::OrdSet<usize>, b: &im::OrdSet<usize>) -> (r: bool)
    ensures
        r ==> id_set(*a) == id_set(*b),
        *a == *b ==> r,
{
    a.ptr_eq(b)
}

// ---------------------------------------------------------------------------
// Sets of wires, each wire as (output node, output pin, input node, input pin)
// ---------------------------------------------------------------------------

/// What a set of wires holds.
pub uninterp spec fn wire_set(s: im::OrdSet<(usize, usize, usize, usize)>) -> Set<
    (usize, usize, usize, usize),
>;

/// `im::OrdSet::new`: an empty set.
#[verifier::external_body]
pub(crate) fn wires_new() -> (r: im::OrdSet<(usize, usize, usize, usize)>)
    ensures
        wire_set(r).is_empty(),
{
    im::OrdSet::new()
}

/// `im::OrdSet::contains`.
#[verifier::external_body]
pub(crate) fn wires_contains(
    s: &im::OrdSet<(usize, usize, usize, usize)>,
    v: (usize, usize, usize, usize),
) -> (r: bool)
    ensures
        r == wire_set(*s).contains(v),
{
    s.contains(&v)
}

/// `im::OrdSet::update`: a new set that also holds `v`.
#[verifier::external_body]
pub(crate) fn wires_update(
    s: &im::OrdSet<(usize, usize, usize, usize)>,
    v: (usize, usize, usize, usize),
) -> (r: im::OrdSet<(usize, usize, usize, usize)>)
    ensures
        wire_set(r) == wire_set(*s).insert(v),
{
    s.update(v)
}

/// `im::OrdSet::without`: a new set without `v`.
#[verifier::external_body]
pub(crate) fn wires_without(
    s: &im::OrdSet<(usize, usize, usize, usize)>,
    v: (usize, usize, usize, usize),
) -> (r: im::OrdSet<(usize, usize, usize, usize)>)
    ensures
        wire_set(r) == wire_set(*s).remove(v),
{
    s.without(&v)
}

/// `im::OrdSet::iter`: the members, each once, in ascending order.
#[verifier::external_body]
pub(crate) fn wires_items(s: &im::OrdSet<(usize, usize, usize, usize)>) -> (r: Vec<
    (usize, usize, usize, usize),
>)
    ensures
        r@.to_set() == wire_set(*s),
        r@.no_duplicates(),
{
    s.iter().copied().collect()
}

/// `im::OrdSet::ptr_eq`: whether two sets share their root; sets that do
/// hold the same wires, and a set and its clone do.
#[verifier::external_body]
pub(crate) fn wires_ptr_eq(
    a: &im::OrdSet<(usize, usize, usize, usize)>,
    b: &im::OrdSet<(usize, usize, usize, usize)>,
) -> (r: bool)
    ensures
        r ==> wire_set(*a) == wire_set(*b),
        *a == *b ==> r,
{
    a.ptr_eq(b)
}

// ---------------------------------------------------------------------------
// Graph nodes keyed by node id
// ---------------------------------------------------------------------------

/// What a map of graph nodes holds: each node id with the node's role.
pub uninterp spec fn node_map(m: im::OrdMap<usize, NodeRole>) -> Map<usize, NodeRole>;

/// `im::OrdMap::new`: a map with no nodes.
#[verifier::external_body]
pub(crate) fn nodes_new() -> (r: im::OrdMap<usize, NodeRole>)
    ensures
        node_map(r).dom().is_empty(),
{
    im::OrdMap::new()
}

/// `im::OrdMap::get`.
#[verifier::external_body]
pub(crate) fn nodes_get(m: &im::OrdMap<usize, NodeRole>, k: usize) -> (r: Option<NodeRole>)
    ensures
        r.is_some() == node_map(*m).contains_key(k),
        r matches Some(v) ==> v == node_map(*m)[k],
{
    m.get(&k).copied()
}

/// `im::OrdMap::update`: a new map with `k` bound to `v`.
#[verifier::external_body]
pub(crate) fn nodes_update(m: &im::OrdMap<usize, NodeRole>, k: usize, v: NodeRole) -> (r:
    im::OrdMap<usize, NodeRole>)
    ensures
        node_map(r) == node_map(*m).insert(k, v),
{
    m.update(k, v)
}

/// `im::OrdMap::without`: a new map without `k`.
#[verifier::external_body]
pub(crate) fn nodes_without(m: &im::OrdMap<usize, NodeRole>, k: usize) -> (r: im::OrdMap<
    usize,
    NodeRole,
>)
    ensures
        node_map(r) == node_map(*m).remove(k),
{
    m.without(&k)
}

/// `im::OrdMap::iter`: the nodes with their roles, in ascending id order.
#[verifier::external_body]
pub(crate) fn nodes_pairs(m: &im::OrdMap<usize, NodeRole>) -> (r: Vec<(usize, NodeRole)>)
    ensures
        forall|i: int|
            0 <= i < r@.len() ==> node_map(*m).contains_key(#[trigger] r@[i].0) && node_map(
                *m,
            )[r@[i].0] == r@[i].1,
        forall|k: usize|
            node_map(*m).contains_key(k) ==> exists|i: int| 0 <= i < r@.len() && #[trigger] r@[i].0 == k,
        forall|i: int, j: int| 0 <= i < j < r@.len() ==> r@[i].0 < r@[j].0,
{
    m.iter().map(|(k, v)| (*k, *v)).collect()
}

/// `im::OrdMap::ptr_eq`: whether two maps share their root; maps that do
/// hold the same nodes, and a map and its clone do.
#[verifier::external_body]
pub(crate) fn nodes_ptr_eq(a: &im::OrdMap<usize, NodeRole>, b: &im::OrdMap<usize, NodeRole>) -> (r:
    bool)
    ensures
        r ==> node_map(*a) == node_map(*b),
        *a == *b ==> r,
{
    a.ptr_eq(b)
}

} // verus!

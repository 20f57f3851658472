//! Small helpers over the persistent collections.
use vstd::prelude::*;

use crate::collections::{
    id_set, ids_contains, ids_update, node_map, nodes_get, nodes_update, wire_set, wires_contains,
    wires_update,
};
use crate::graph::{NodeRole, WireKey};
use crate::json::{json_parse, parse_json, tool_call_of, tool_shape};

verus! {

/// Inserting into a persistent set, keeping the set itself when the value is
/// already there.
pub trait ImmutableSetExt<V>: Sized {
    /// A set that also holds `v`; the set itself if it already holds `v`.
    fn with(&self, v: &V) -> Self;
}

impl ImmutableSetExt<usize> for im::OrdSet<usize> {
    fn with(&self, v: &usize) -> (r: Self)
        ensures
            id_set(r) == id_set(*self).insert(*v),
            id_set(*self).contains(*v) ==> r == *self,
    {
        if ids_contains(self, *v) {
            assert(id_set(*self).insert(*v) =~= id_set(*self));
            self.clone()
        } else {
            ids_update(self, *v)
        }
    }
}

impl ImmutableSetExt<WireKey> for im::OrdSet<WireKey> {
    fn with(&self, v: &WireKey) -> (r: Self)
        ensures
            wire_set(r) == wire_set(*self).insert(*v),
            wire_set(*self).contains(*v) ==> r == *self,
    {
        if wires_contains(self, *v) {
            assert(wire_set(*self).insert(*v) =~= wire_set(*self));
            self.clone()
        } else {
            wires_update(self, *v)
        }
    }
}

/// Inserting into a persistent map, keeping the map itself when the key is
/// already bound to the value.
pub trait ImmutableMapExt<K, V>: Sized {
    /// A map with `k` bound to `v`; the map itself if it already binds `k` to `v`.
    fn with(&self, k: &K, v: &V) -> Self;
}

impl ImmutableMapExt<usize, NodeRole> for im::OrdMap<usize, NodeRole> {
    fn with(&self, k: &usize, v: &NodeRole) -> (r: Self)
        ensures
            node_map(r) == node_map(*self).insert(*k, *v),
            node_map(*self).contains_key(*k) && node_map(*self)[*k] == *v ==> r == *self,
    {
        match nodes_get(self, *k) {
            Some(old) => {
                if old == *v {
                    assert(node_map(*self).insert(*k, *v) =~= node_map(*self));
                    return self.clone();
                }
            },
            None => {},
        }
        nodes_update(self, *k, *v)
    }
}

/// The characters of a text.
pub fn chars_of(s: &str) -> (r: Vec<char>)
    ensures
        r@ == s@,
{
    broadcast use vstd::string::group_string_axioms;

    let mut out: Vec<char> = Vec::new();
    for c in it: s.chars()
        invariant
            out@ == it.seq().take(it.index() as int),
    {
        out.push(c);
    }
    out
}

/// `String::push`: appends one character.
#[verifier::external_body]
pub(crate) fn push_char(s: &mut String, c: char)
    ensures
        final(s)@ == old(s)@.push(c),
{
    s.push(c);
}

/// The text of the characters from `from` up to `to`.
pub fn text_of(cs: &Vec<char>, from: usize, to: usize) -> (r: String)
    requires
        from <= to <= cs@.len(),
    ensures
        r@ == cs@.subrange(from as int, to as int),
{
    let mut out = String::new();
    let mut i: usize = from;
    while i < to
        invariant
            from <= i <= to,
            to <= cs@.len(),
            out@ == cs@.subrange(from as int, i as int),
        decreases to - i,
    {
        push_char(&mut out, cs[i]);
        assert(out@ =~= cs@.subrange(from as int, i as int + 1));
        i += 1;
    }
    out
}

/// The positions (below `n`) where `c` occurs in `s`, in ascending order.
pub open spec fn positions(s: Seq<char>, c: char, n: int) -> Seq<int>
    decreases n,
{
    if n <= 0 {
        Seq::empty()
    } else {
        let rest = positions(s, c, n - 1);
        if s[n - 1] == c {
            rest.push(n - 1)
        } else {
            rest
        }
    }
}

/// The positions where `c` occurs in `s`, in ascending order.
fn find_positions(s: &Vec<char>, c: char) -> (r: Vec<usize>)
    ensures
        r@.map_values(|x: usize| x as int) == positions(s@, c, s@.len() as int),
        forall|k: int| 0 <= k < r@.len() ==> #[trigger] r@[k] < s@.len(),
{
    let mut out: Vec<usize> = Vec::new();
    let mut i: usize = 0;
    while i < s.len()
        invariant
            i <= s@.len(),
            out@.map_values(|x: usize| x as int) == positions(s@, c, i as int),
            forall|k: int| 0 <= k < out@.len() ==> #[trigger] out@[k] < i,
        decreases s@.len() - i,
    {
        if s[i] == c {
            let ghost before = out@;
            out.push(i);
            assert(out@.map_values(|x: usize| x as int) =~= before.map_values(|x: usize| x as int).push(i as int));
        }
        i += 1;
    }
    out
}

/// Whether a document found by a search is the one sought: any document, or
/// with `calls` one that reads as a tool call.
pub open spec fn sought(v: serde_json::Value, calls: bool) -> bool {
    !calls || tool_shape(v) is Some
}

/// The search for a JSON document inside a text: for each opening bracket
/// from the first, each closing bracket from the last, the first text between
/// a pair (opening before closing) that parses to a document sought.
pub open spec fn extract_from(s: Seq<char>, opens: Seq<int>, closes: Seq<int>, ai: int, bi: int, calls: bool) -> Option<
    serde_json::Value,
>
    decreases opens.len() - ai, closes.len() - bi,
{
    if ai >= opens.len() || ai < 0 || bi < 0 {
        None
    } else if bi >= closes.len() {
        extract_from(s, opens, closes, ai + 1, 0, calls)
    } else if opens[ai] < closes[bi] && (json_parse(s.subrange(opens[ai], closes[bi] + 1)) matches Some(v)
        && sought(v, calls)) {
        json_parse(s.subrange(opens[ai], closes[bi] + 1))
    } else {
        extract_from(s, opens, closes, ai, bi + 1, calls)
    }
}

/// The document sought inside a text: an object (or, with `as_array`, an
/// array) between a pair of brackets, as the search above finds it.
pub open spec fn extracted_where(s: Seq<char>, as_array: bool, calls: bool) -> Option<serde_json::Value> {
    let (open, close) = if as_array { ('[', ']') } else { ('{', '}') };
    extract_from(s, positions(s, open, s.len() as int), positions(s, close, s.len() as int).reverse(), 0, 0, calls)
}

/// The JSON document found inside a text.
pub open spec fn extracted(s: Seq<char>, as_array: bool) -> Option<serde_json::Value> {
    extracted_where(s, as_array, false)
}

/// The first object inside a text that reads as a tool call.
pub open spec fn extracted_call(s: Seq<char>) -> Option<serde_json::Value> {
    extracted_where(s, false, true)
}

/// Searches a text for a JSON document between brackets (see
/// [`extracted_where`]).
fn search_json(input: &str, as_array: bool, calls: bool) -> (r: Option<serde_json::Value>)
    ensures
        r == extracted_where(input@, as_array, calls),
{
    let cs = chars_of(input);
    let (open, close) = if as_array { ('[', ']') } else { ('{', '}') };
    let opens = find_positions(&cs, open);
    let closes_up = find_positions(&cs, close);
    let mut closes: Vec<usize> = Vec::new();
    let mut k: usize = closes_up.len();
    while k > 0
        invariant
            k <= closes_up@.len(),
            closes@ == closes_up@.subrange(k as int, closes_up@.len() as int).reverse(),
        decreases k,
    {
        closes.push(closes_up[k - 1]);
        assert(closes@ =~= closes_up@.subrange(k - 1, closes_up@.len() as int).reverse());
        k -= 1;
    }
    let ghost so = opens@.map_values(|x: usize| x as int);
    let ghost sc = closes@.map_values(|x: usize| x as int);
    proof {
        assert(closes_up@.subrange(0, closes_up@.len() as int) == closes_up@);
        assert(sc =~= closes_up@.map_values(|x: usize| x as int).reverse());
    }
    let mut ai: usize = 0;
    let mut bi: usize = 0;
    let total = cs.len();
    while ai < opens.len()
        invariant
            total == cs@.len(),
            ai <= opens@.len(),
            bi <= closes@.len(),
            cs@ == input@,
            so == opens@.map_values(|x: usize| x as int),
            sc == closes@.map_values(|x: usize| x as int),
            forall|q: int| 0 <= q < opens@.len() ==> #[trigger] opens@[q] < cs@.len(),
            forall|q: int| 0 <= q < closes@.len() ==> #[trigger] closes@[q] < cs@.len(),
            extracted_where(input@, as_array, calls) == extract_from(cs@, so, sc, ai as int, bi as int, calls),
        decreases opens@.len() - ai, closes@.len() - bi,
    {
        if bi >= closes.len() {
            ai += 1;
            bi = 0;
        } else {
            let a = opens[ai];
            let b = closes[bi];
            if a < b {
                let text = text_of(&cs, a, b + 1);
                match parse_json(text.as_str()) {
                    Ok(v) => {
                        if !calls || tool_call_of(&v).is_some() {
                            return Some(v);
                        }
                    },
                    Err(_) => {},
                }
            }
            bi += 1;
        }
    }
    None
}

/// Attempts to find a JSON document surrounded by unstructured text. This can
/// take several passes over the text and should be used as a last resort.
pub fn extract_json(input: &str, as_array: bool) -> (r: Option<serde_json::Value>)
    ensures
        r == extracted(input@, as_array),
{
    search_json(input, as_array, false)
}

/// Finds the first object inside a text that reads as a tool call.
pub fn extract_tool_call(input: &str) -> (r: Option<serde_json::Value>)
    ensures
        r == extracted_call(input@),
{
    search_json(input, false, true)
}

/// Finds a JSON object inside a text (see [`extract_json`]).
pub fn extract_json_obj(input: &str) -> (r: Option<serde_json::Value>)
    ensures
        r == extracted(input@, false),
{
    extract_json(input, false)
}

/// The first of the positions of `c` is 0 when the text starts with `c`.
proof fn lemma_first_position(s: Seq<char>, c: char, n: int)
    requires
        1 <= n <= s.len(),
        s[0] == c,
    ensures
        positions(s, c, n).len() > 0,
        positions(s, c, n)[0] == 0,
    decreases n,
{
    reveal_with_fuel(positions, 2);
    if n > 1 {
        lemma_first_position(s, c, n - 1);
        let rest = positions(s, c, n - 1);
        if s[n - 1] == c {
            assert(positions(s, c, n) == rest.push(n - 1));
            assert(rest.push(n - 1)[0] == rest[0]);
        } else {
            assert(positions(s, c, n) == rest);
        }
    }
}

/// A text that is one JSON object (or array) as a whole is found whole:
/// the search starts with its first and last brackets.
pub proof fn law_whole_document_extracted(s: Seq<char>, as_array: bool)
    requires
        s.len() >= 2,
        s[0] == (if as_array { '[' } else { '{' }),
        s.last() == (if as_array { ']' } else { '}' }),
        json_parse(s) is Some,
    ensures
        extracted(s, as_array) == json_parse(s),
{
    let (open, close) = if as_array { ('[', ']') } else { ('{', '}') };
    let n = s.len() as int;
    lemma_first_position(s, open, n);
    let opens = positions(s, open, n);
    let closes = positions(s, close, n).reverse();
    assert(positions(s, close, n) == positions(s, close, n - 1).push(n - 1));
    assert(closes[0] == n - 1);
    assert(s.subrange(opens[0], closes[0] + 1) =~= s);
}

/// Queues errors that need not stop the work into a collection to look at later.
pub trait ErrorDistiller<E> {
    /// Drops every queued error.
    fn discard(&self);

    /// Queues an error.
    fn push(&self, err: E);

    /// Turns a result into an option, queueing the error: `Some` of a value,
    /// `None` for an error.
    fn distil<T>(&self, result: Result<T, E>) -> (r: Option<T>)
        ensures
            match result {
                Ok(x) => r == Some(x),
                Err(_) => r is None,
            },
    {
        match result {
            Ok(item) => Some(item),
            Err(err) => {
                self.push(err);
                None
            },
        }
    }
}

/// How a piece of a message's text is shown.
#[derive(Debug, Clone, Copy, PartialEq, Eq, Structural)]
pub enum FormatOpts {
    Plain,
    Pre,
    Markdown,
    Unknown,
    Separator,
}

} // verus!

//! Running a subgraph once per item of its list inputs: slicing the inputs of
//! each pass, and collecting the outputs of the passes into lists.
use std::sync::Arc;
use vstd::prelude::*;

use crate::json::{json_array, json_array_items, json_items};
use crate::nodes::or_default;
use crate::values::{kind_is_list, kind_of, FlowValue, ValueKind, WorkflowError};

verus! {

/// How many items a list input (or a JSON array) holds.
pub open spec fn item_count(v: Option<FlowValue>) -> Option<nat> {
    match v {
        Some(FlowValue::TextList(items)) => Some(items@.len()),
        Some(FlowValue::FloatList(items)) => Some(items@.len()),
        Some(FlowValue::IntList(items)) => Some(items@.len()),
        Some(FlowValue::MsgList(items)) => Some(items@.len()),
        Some(FlowValue::Json(a)) => match json_array_items(*a) {
            Some(items) => Some(items.len()),
            None => None,
        },
        _ => None,
    }
}

/// Whether `r` is the `i`-th slice of input `v`: the `i`-th item of a list
/// (or element of a JSON array); any other input as it is.
pub open spec fn sliced(v: Option<FlowValue>, i: int, r: Option<FlowValue>) -> bool {
    match v {
        Some(FlowValue::TextList(items)) => r matches Some(FlowValue::Text(t)) && *t == items@[i],
        Some(FlowValue::FloatList(items)) => r == Some(FlowValue::Number(items@[i])),
        Some(FlowValue::IntList(items)) => r == Some(FlowValue::Integer(items@[i])),
        Some(FlowValue::MsgList(items)) => r matches Some(FlowValue::Message(m)) && *m == items@[i],
        Some(FlowValue::Json(a)) => match json_array_items(*a) {
            Some(items) => r matches Some(FlowValue::Json(x)) && *x == items[i],
            None => r == v,
        },
        _ => r == v,
    }
}

/// The `i`-th slice of one input.
fn slice_one(v: &Option<FlowValue>, i: usize) -> (r: Option<FlowValue>)
    requires
        item_count(*v) matches Some(n) ==> i < n,
    ensures
        sliced(*v, i as int, r),
{
    match v {
        Some(FlowValue::TextList(items)) => Some(FlowValue::Text(Arc::new(items[i].clone()))),
        Some(FlowValue::FloatList(items)) => Some(FlowValue::Number(items[i])),
        Some(FlowValue::IntList(items)) => Some(FlowValue::Integer(items[i])),
        Some(FlowValue::MsgList(items)) => Some(FlowValue::Message(Arc::new(items[i].clone()))),
        Some(FlowValue::Json(a)) => match json_items(a) {
            Some(items) => Some(FlowValue::Json(Arc::new(items[i].clone()))),
            None => Some(FlowValue::Json(a.clone())),
        },
        Some(x) => Some(x.duplicate()),
        None => None,
    }
}

/// The inputs of the `i`-th pass: each list gives its `i`-th item; every
/// other input is passed to each pass as it is.
pub fn par_slice(inputs: &Vec<Option<FlowValue>>, i: usize) -> (r: Vec<Option<FlowValue>>)
    requires
        forall|k: int|
            0 <= k < inputs@.len() ==> (item_count(#[trigger] inputs@[k]) matches Some(n) ==> i < n),
    ensures
        r@.len() == inputs@.len(),
        forall|k: int| 0 <= k < inputs@.len() ==> sliced(inputs@[k], i as int, #[trigger] r@[k]),
{
    let mut out: Vec<Option<FlowValue>> = Vec::new();
    let mut k: usize = 0;
    while k < inputs.len()
        invariant
            k <= inputs@.len(),
            out@.len() == k,
            forall|q: int|
                0 <= q < inputs@.len() ==> (item_count(#[trigger] inputs@[q]) matches Some(n) ==> i < n),
            forall|q: int| 0 <= q < k ==> sliced(inputs@[q], i as int, #[trigger] out@[q]),
        decreases inputs@.len() - k,
    {
        let s = slice_one(&inputs[k], i);
        out.push(s);
        k += 1;
    }
    out
}

/// A copy of a list of texts.
fn copy_strings(v: &Vec<String>) -> (r: Vec<String>)
    ensures
        r@ == v@,
{
    let mut out: Vec<String> = Vec::new();
    let mut i: usize = 0;
    while i < v.len()
        invariant
            i <= v@.len(),
            out@ == v@.take(i as int),
        decreases v@.len() - i,
    {
        out.push(v[i].clone());
        assert(out@ =~= v@.take(i as int + 1));
        i += 1;
    }
    assert(v@.take(v@.len() as int) == v@);
    out
}

/// One list followed by another.
fn joined<T: Copy>(a: &Vec<T>, b: &Vec<T>) -> (r: Vec<T>)
    ensures
        r@ == a@ + b@,
{
    let mut out: Vec<T> = Vec::new();
    let mut i: usize = 0;
    while i < a.len()
        invariant
            i <= a@.len(),
            out@ == a@.take(i as int),
        decreases a@.len() - i,
    {
        out.push(a[i]);
        assert(out@ =~= a@.take(i as int + 1));
        i += 1;
    }
    let mut j: usize = 0;
    while j < b.len()
        invariant
            j <= b@.len(),
            out@ == a@ + b@.take(j as int),
        decreases b@.len() - j,
    {
        out.push(b[j]);
        assert(out@ =~= a@ + b@.take(j as int + 1));
        j += 1;
    }
    assert(a@.take(a@.len() as int) == a@);
    assert(b@.take(b@.len() as int) == b@);
    out
}

/// One list of texts followed by another.
fn joined_strings(a: &Vec<String>, b: &Vec<String>) -> (r: Vec<String>)
    ensures
        r@ == a@ + b@,
{
    let mut out = copy_strings(a);
    let mut j: usize = 0;
    while j < b.len()
        invariant
            j <= b@.len(),
            out@ == a@ + b@.take(j as int),
        decreases b@.len() - j,
    {
        out.push(b[j].clone());
        assert(out@ =~= a@ + b@.take(j as int + 1));
        j += 1;
    }
    assert(b@.take(b@.len() as int) == b@);
    out
}

/// One list of documents followed by another.
fn joined_docs(a: &Vec<serde_json::Value>, b: &Vec<serde_json::Value>) -> (r: Vec<serde_json::Value>)
    ensures
        r@ == a@ + b@,
{
    let mut out: Vec<serde_json::Value> = Vec::new();
    let mut i: usize = 0;
    while i < a.len()
        invariant
            i <= a@.len(),
            out@ == a@.take(i as int),
        decreases a@.len() - i,
    {
        out.push(a[i].clone());
        assert(out@ =~= a@.take(i as int + 1));
        i += 1;
    }
    let mut j: usize = 0;
    while j < b.len()
        invariant
            j <= b@.len(),
            out@ == a@ + b@.take(j as int),
        decreases b@.len() - j,
    {
        out.push(b[j].clone());
        assert(out@ =~= a@ + b@.take(j as int + 1));
        j += 1;
    }
    assert(a@.take(a@.len() as int) == a@);
    assert(b@.take(b@.len() as int) == b@);
    out
}

/// Whether `r` is the accumulator `acc` with the output `val` of one pass
/// added: an item is appended to its list, a list is appended to the list of
/// its kind, a document to an array (an array element by element); any other
/// value replaces the accumulator; nothing leaves it unchanged.
pub open spec fn pushed_value(acc: FlowValue, val: Option<FlowValue>, r: FlowValue) -> bool {
    match (acc, val) {
        (FlowValue::TextList(a), Some(FlowValue::Text(t))) => r matches FlowValue::TextList(b) && b@ == a@.push(*t),
        (FlowValue::TextList(a), Some(FlowValue::TextList(t))) => r matches FlowValue::TextList(b) && b@ == a@ + t@,
        (FlowValue::IntList(a), Some(FlowValue::Integer(x))) => r matches FlowValue::IntList(b) && b@ == a@.push(x),
        (FlowValue::IntList(a), Some(FlowValue::IntList(t))) => r matches FlowValue::IntList(b) && b@ == a@ + t@,
        (FlowValue::FloatList(a), Some(FlowValue::Number(x))) => r matches FlowValue::FloatList(b) && b@ == a@.push(x),
        (FlowValue::FloatList(a), Some(FlowValue::FloatList(t))) => r matches FlowValue::FloatList(b) && b@ == a@ + t@,
        (FlowValue::MsgList(a), Some(FlowValue::Message(m))) => r matches FlowValue::MsgList(b) && b@ == a@.push(*m),
        (FlowValue::MsgList(a), Some(FlowValue::MsgList(t))) => r matches FlowValue::MsgList(b) && b@ == a@ + t@,
        (FlowValue::Json(a), Some(FlowValue::Json(x))) => r matches FlowValue::Json(b) && json_array_items(*b)
            == Some(
            match json_array_items(*x) {
                Some(xs) => json_array_items(*a)->Some_0 + xs,
                None => json_array_items(*a)->Some_0.push(*x),
            },
        ),
        (_, Some(v)) => r == v,
        (_, None) => r == acc,
    }
}

/// Adds the output of one pass to its accumulator.
pub fn push_values(res: &mut FlowValue, val: Option<FlowValue>)
    requires
        (*old(res) is Json && val matches Some(FlowValue::Json(_))) ==> json_array_items(
            *old(res)->Json_0,
        ) is Some,
    ensures
        pushed_value(*old(res), val, *final(res)),
{
    let next: Option<FlowValue> = match (&*res, &val) {
        (FlowValue::TextList(a), Some(FlowValue::Text(t))) => {
            let mut b = copy_strings(a);
            b.push((**t).clone());
            Some(FlowValue::TextList(Arc::new(b)))
        },
        (FlowValue::TextList(a), Some(FlowValue::TextList(t))) => Some(
            FlowValue::TextList(Arc::new(joined_strings(a, t))),
        ),
        (FlowValue::IntList(a), Some(FlowValue::Integer(x))) => {
            let mut b = joined(a, &Vec::new());
            b.push(*x);
            Some(FlowValue::IntList(Arc::new(b)))
        },
        (FlowValue::IntList(a), Some(FlowValue::IntList(t))) => Some(FlowValue::IntList(Arc::new(joined(a, t)))),
        (FlowValue::FloatList(a), Some(FlowValue::Number(x))) => {
            let mut b = joined(a, &Vec::new());
            b.push(*x);
            Some(FlowValue::FloatList(Arc::new(b)))
        },
        (FlowValue::FloatList(a), Some(FlowValue::FloatList(t))) => Some(
            FlowValue::FloatList(Arc::new(joined(a, t))),
        ),
        (FlowValue::MsgList(a), Some(FlowValue::Message(m))) => {
            let mut b = joined_docs(a, &Vec::new());
            b.push((**m).clone());
            Some(FlowValue::MsgList(Arc::new(b)))
        },
        (FlowValue::MsgList(a), Some(FlowValue::MsgList(t))) => Some(
            FlowValue::MsgList(Arc::new(joined_docs(a, t))),
        ),
        (FlowValue::Json(a), Some(FlowValue::Json(x))) => {
            let items = json_items(a).unwrap();
            let b = match json_items(x) {
                Some(xs) => joined_docs(&items, &xs),
                None => {
                    let mut b = joined_docs(&items, &Vec::new());
                    b.push((**x).clone());
                    b
                },
            };
            Some(FlowValue::Json(Arc::new(json_array(b))))
        },
        (_, Some(v)) => Some(v.duplicate()),
        (_, None) => None,
    };
    match next {
        Some(v) => {
            *res = v;
        },
        None => {},
    }
}

/// Whether `r` is `acc` followed by `items`: lists of one kind (and JSON
/// arrays) are joined; anything else takes the place of the accumulator.
pub open spec fn concatenated(acc: FlowValue, items: FlowValue, r: FlowValue) -> bool {
    match (acc, items) {
        (FlowValue::TextList(a), FlowValue::TextList(b)) => r matches FlowValue::TextList(c) && c@ == a@ + b@,
        (FlowValue::IntList(a), FlowValue::IntList(b)) => r matches FlowValue::IntList(c) && c@ == a@ + b@,
        (FlowValue::FloatList(a), FlowValue::FloatList(b)) => r matches FlowValue::FloatList(c) && c@ == a@ + b@,
        (FlowValue::MsgList(a), FlowValue::MsgList(b)) => r matches FlowValue::MsgList(c) && c@ == a@ + b@,
        (FlowValue::Json(a), FlowValue::Json(b)) => r matches FlowValue::Json(c) && json_array_items(*c)
            == Some(json_array_items(*a)->Some_0 + json_array_items(*b)->Some_0),
        (_, b) => r == b,
    }
}

/// Joins the accumulated outputs of two groups of passes.
pub fn concat_values(acc: &mut FlowValue, items: FlowValue)
    requires
        (*old(acc) is Json && items is Json) ==> json_array_items(*old(acc)->Json_0) is Some
            && json_array_items(*items->Json_0) is Some,
    ensures
        concatenated(*old(acc), items, *final(acc)),
{
    let next: FlowValue = match (&*acc, &items) {
        (FlowValue::TextList(a), FlowValue::TextList(b)) => FlowValue::TextList(Arc::new(joined_strings(a, b))),
        (FlowValue::IntList(a), FlowValue::IntList(b)) => FlowValue::IntList(Arc::new(joined(a, b))),
        (FlowValue::FloatList(a), FlowValue::FloatList(b)) => FlowValue::FloatList(Arc::new(joined(a, b))),
        (FlowValue::MsgList(a), FlowValue::MsgList(b)) => FlowValue::MsgList(Arc::new(joined_docs(a, b))),
        (FlowValue::Json(a), FlowValue::Json(b)) => {
            let xs = json_items(a).unwrap();
            let ys = json_items(b).unwrap();
            FlowValue::Json(Arc::new(json_array(joined_docs(&xs, &ys))))
        },
        (_, b) => b.duplicate(),
    };
    *acc = next;
}

/// How many items a list input holds (JSON arrays do not count here).
pub open spec fn list_len(v: FlowValue) -> nat {
    match v {
        FlowValue::TextList(items) => items@.len(),
        FlowValue::FloatList(items) => items@.len(),
        FlowValue::IntList(items) => items@.len(),
        FlowValue::MsgList(items) => items@.len(),
        _ => 0,
    }
}

/// Whether input `k` is a list.
pub open spec fn is_list_input(inputs: Seq<Option<FlowValue>>, k: int) -> bool {
    inputs[k] matches Some(v) && kind_is_list(kind_of(v))
}

/// The report of list inputs of different lengths.
#[verifier::external_body]
fn lengths_message(lengths: &Vec<usize>) -> String {
    format!("List inputs are not the same length: {lengths:?}")
}

/// How many passes the inputs call for: none (a single plain run) when no
/// input is a list; the common length of the list inputs; an error when their
/// lengths differ.
pub fn iteration_count(inputs: &Vec<Option<FlowValue>>) -> (r: Result<Option<usize>, WorkflowError>)
    ensures
        (forall|k: int| 0 <= k < inputs@.len() ==> !is_list_input(inputs@, k)) ==> r == Ok::<
            Option<usize>,
            WorkflowError,
        >(None),
        r matches Ok(Some(n)) ==> (exists|k: int| 0 <= k < inputs@.len() && is_list_input(inputs@, k))
            && forall|k: int|
            0 <= k < inputs@.len() && is_list_input(inputs@, k) ==> list_len(inputs@[k]->Some_0) == n,
        r is Err ==> (r matches Err(WorkflowError::Conversion(_)) && exists|k: int, j: int|
            0 <= k < inputs@.len() && 0 <= j < inputs@.len() && is_list_input(inputs@, k) && is_list_input(inputs@, j)
                && list_len(inputs@[k]->Some_0) != list_len(inputs@[j]->Some_0)),
        (exists|k: int| 0 <= k < inputs@.len() && is_list_input(inputs@, k)) ==> r !is Ok || r matches Ok(Some(_)),
{
    let mut lengths: Vec<usize> = Vec::new();
    let mut first: Option<usize> = None;
    let mut same = true;
    let mut i: usize = 0;
    let ghost mut witness: int = 0;
    let ghost mut odd: int = 0;
    while i < inputs.len()
        invariant
            i <= inputs@.len(),
            first is None <==> forall|k: int| 0 <= k < i ==> !is_list_input(inputs@, k),
            first matches Some(n) ==> 0 <= witness < i && is_list_input(inputs@, witness) && list_len(
                inputs@[witness]->Some_0,
            ) == n,
            same ==> forall|k: int|
                0 <= k < i && is_list_input(inputs@, k) ==> (first matches Some(n) && list_len(
                    inputs@[k]->Some_0,
                ) == n),
            !same ==> 0 <= odd < i && is_list_input(inputs@, odd) && (first matches Some(n) && list_len(
                inputs@[odd]->Some_0,
            ) != n),
        decreases inputs@.len() - i,
    {
        let len: Option<usize> = match &inputs[i] {
            Some(FlowValue::TextList(items)) => Some(items.len()),
            Some(FlowValue::FloatList(items)) => Some(items.len()),
            Some(FlowValue::IntList(items)) => Some(items.len()),
            Some(FlowValue::MsgList(items)) => Some(items.len()),
            _ => None,
        };
        proof {
            assert(len is Some <==> is_list_input(inputs@, i as int));
            assert(len matches Some(n) ==> n == list_len(inputs@[i as int]->Some_0));
            if first is None && len is None {
                assert forall|k: int| 0 <= k < i + 1 implies !is_list_input(inputs@, k) by {
                    if k < i {
                    }
                }
            }
        }
        match len {
            Some(n) => {
                lengths.push(n);
                match first {
                    Some(f) => {
                        if n != f && same {
                            same = false;
                            proof {
                                odd = i as int;
                            }
                        }
                    },
                    None => {
                        first = Some(n);
                        proof {
                            witness = i as int;
                        }
                    },
                }
            },
            None => {},
        }
        i += 1;
    }
    match first {
        None => Ok(None),
        Some(n) => {
            if same {
                Ok(Some(n))
            } else {
                Err(WorkflowError::Conversion(lengths_message(&lengths)))
            }
        },
    }
}

/// The empty accumulator for outputs of a kind: an empty list of the kind, or
/// an empty JSON array. Outputs of a subgraph are lists or JSON.
pub fn seed_result(kind: ValueKind) -> (r: FlowValue)
    requires
        kind_is_list(kind) || kind == ValueKind::Json,
    ensures
        kind == ValueKind::TextList ==> (r matches FlowValue::TextList(t) && t@.len() == 0),
        kind == ValueKind::IntList ==> (r matches FlowValue::IntList(t) && t@.len() == 0),
        kind == ValueKind::FloatList ==> (r matches FlowValue::FloatList(t) && t@.len() == 0),
        kind == ValueKind::MsgList ==> (r matches FlowValue::MsgList(t) && t@.len() == 0),
        kind == ValueKind::Json ==> (r matches FlowValue::Json(j) && json_array_items(*j) == Some(
            Seq::<serde_json::Value>::empty(),
        )),
{
    match kind {
        ValueKind::TextList => FlowValue::TextList(Arc::new(Vec::new())),
        ValueKind::IntList => FlowValue::IntList(Arc::new(Vec::new())),
        ValueKind::FloatList => FlowValue::FloatList(Arc::new(Vec::new())),
        ValueKind::MsgList => FlowValue::MsgList(Arc::new(Vec::new())),
        _ => {
            let empty: Vec<serde_json::Value> = Vec::new();
            assert(empty@ =~= Seq::<serde_json::Value>::empty());
            FlowValue::Json(Arc::new(json_array(empty)))
        },
    }
}


/// Whether adding a pass's outputs to accumulated ones is defined: a JSON
/// accumulator that receives a JSON output is an array.
pub open spec fn pass_fits(acc: Seq<FlowValue>, outputs: Seq<Option<FlowValue>>) -> bool {
    forall|k: int|
        0 <= k < acc.len() && k < outputs.len() ==> ((#[trigger] acc[k] is Json && outputs[k] matches Some(
            FlowValue::Json(_),
        )) ==> json_array_items(*acc[k]->Json_0) is Some)
}

/// Adds the outputs of one pass to the accumulated outputs, pin by pin (see
/// [`push_values`]); an accumulator without a matching output stays as it is.
pub fn collect_pass(acc: &mut Vec<FlowValue>, outputs: &Vec<Option<FlowValue>>)
    requires
        pass_fits(old(acc)@, outputs@),
    ensures
        final(acc)@.len() == old(acc)@.len(),
        forall|k: int|
            0 <= k < old(acc)@.len() ==> if k < outputs@.len() {
                pushed_value(old(acc)@[k], outputs@[k], #[trigger] final(acc)@[k])
            } else {
                final(acc)@[k] == old(acc)@[k]
            },
{
    let mut next: Vec<FlowValue> = Vec::new();
    let mut k: usize = 0;
    while k < acc.len()
        invariant
            k <= acc@.len(),
            acc@ == old(acc)@,
            pass_fits(acc@, outputs@),
            next@.len() == k,
            forall|j: int|
                0 <= j < k ==> if j < outputs@.len() {
                    pushed_value(acc@[j], outputs@[j], #[trigger] next@[j])
                } else {
                    next@[j] == acc@[j]
                },
        decreases acc@.len() - k,
    {
        let mut x = acc[k].duplicate();
        if k < outputs.len() {
            let val = match &outputs[k] {
                Some(v) => Some(v.duplicate()),
                None => None,
            };
            push_values(&mut x, val);
        }
        next.push(x);
        k += 1;
    }
    *acc = next;
}

/// Whether joining two groups' outputs is defined: JSON accumulators meet
/// JSON outputs only as arrays.
pub open spec fn groups_fit(left: Seq<FlowValue>, right: Seq<FlowValue>) -> bool {
    forall|k: int|
        0 <= k < left.len() && k < right.len() ==> ((#[trigger] left[k] is Json && right[k] is Json)
            ==> json_array_items(*left[k]->Json_0) is Some && json_array_items(*right[k]->Json_0) is Some)
}

/// Joins the accumulated outputs of two groups of passes, pin by pin (see
/// [`concat_values`]); an accumulator without a matching one stays as it is.
pub fn merge_groups(left: &mut Vec<FlowValue>, right: &Vec<FlowValue>)
    requires
        groups_fit(old(left)@, right@),
    ensures
        final(left)@.len() == old(left)@.len(),
        forall|k: int|
            0 <= k < old(left)@.len() ==> if k < right@.len() {
                concatenated(old(left)@[k], right@[k], #[trigger] final(left)@[k])
            } else {
                final(left)@[k] == old(left)@[k]
            },
{
    let mut next: Vec<FlowValue> = Vec::new();
    let mut k: usize = 0;
    while k < left.len()
        invariant
            k <= left@.len(),
            left@ == old(left)@,
            groups_fit(left@, right@),
            next@.len() == k,
            forall|j: int|
                0 <= j < k ==> if j < right@.len() {
                    concatenated(left@[j], right@[j], #[trigger] next@[j])
                } else {
                    next@[j] == left@[j]
                },
        decreases left@.len() - k,
    {
        let mut x = left[k].duplicate();
        if k < right.len() {
            concat_values(&mut x, right[k].duplicate());
        }
        next.push(x);
        k += 1;
    }
    *left = next;
}

/// The outputs of a single run of a subgraph: what its finish node received
/// (an empty placeholder for a missing value), then an empty failure.
pub fn simple_results(outputs: &Vec<Option<FlowValue>>) -> (r: Vec<FlowValue>)
    ensures
        r@ == outputs@.map_values(|v: Option<FlowValue>| or_default(v)).push(
            FlowValue::Placeholder(ValueKind::Failure),
        ),
{
    let mut out: Vec<FlowValue> = Vec::new();
    let mut k: usize = 0;
    while k < outputs.len()
        invariant
            k <= outputs@.len(),
            out@ == outputs@.take(k as int).map_values(|v: Option<FlowValue>| or_default(v)),
        decreases outputs@.len() - k,
    {
        let x = match &outputs[k] {
            Some(v) => v.duplicate(),
            None => FlowValue::Placeholder(ValueKind::Placeholder),
        };
        let ghost before = out@;
        out.push(x);
        proof {
            assert(outputs@.take(k + 1).map_values(|v: Option<FlowValue>| or_default(v)) =~= before.push(
                or_default(outputs@[k as int]),
            ));
        }
        k += 1;
    }
    assert(outputs@.take(outputs@.len() as int) == outputs@);
    out.push(FlowValue::Placeholder(ValueKind::Failure));
    out
}

/// Whether a pass's outputs fit the accumulated outputs (see [`pass_fits`]).
pub fn pass_fits_check(acc: &Vec<FlowValue>, outputs: &Vec<Option<FlowValue>>) -> (r: bool)
    ensures
        r == pass_fits(acc@, outputs@),
{
    let mut k: usize = 0;
    while k < acc.len() && k < outputs.len()
        invariant
            forall|j: int|
                0 <= j < k && j < acc@.len() && j < outputs@.len() ==> ((#[trigger] acc@[j] is Json && outputs@[j] matches Some(
                    FlowValue::Json(_),
                )) ==> json_array_items(*acc@[j]->Json_0) is Some),
        decreases acc@.len() - k,
    {
        match (&acc[k], &outputs[k]) {
            (FlowValue::Json(a), Some(FlowValue::Json(_))) => {
                if json_items(&**a).is_none() {
                    return false;
                }
            },
            _ => {},
        }
        k += 1;
    }
    true
}

/// Adds the outputs of one pass to the accumulated outputs when they fit
/// (see [`collect_pass`]); otherwise leaves them as they are and says so.
pub fn collect_pass_checked(acc: &mut Vec<FlowValue>, outputs: &Vec<Option<FlowValue>>) -> (r: bool)
    ensures
        r == pass_fits(old(acc)@, outputs@),
        !r ==> final(acc)@ == old(acc)@,
        r ==> final(acc)@.len() == old(acc)@.len() && forall|k: int|
            0 <= k < old(acc)@.len() ==> if k < outputs@.len() {
                pushed_value(old(acc)@[k], outputs@[k], #[trigger] final(acc)@[k])
            } else {
                final(acc)@[k] == old(acc)@[k]
            },
{
    if !pass_fits_check(acc, outputs) {
        return false;
    }
    collect_pass(acc, outputs);
    true
}

/// Whether two groups' accumulated outputs fit (see [`groups_fit`]).
pub fn groups_fit_check(left: &Vec<FlowValue>, right: &Vec<FlowValue>) -> (r: bool)
    ensures
        r == groups_fit(left@, right@),
{
    let mut k: usize = 0;
    while k < left.len() && k < right.len()
        invariant
            forall|j: int|
                0 <= j < k && j < left@.len() && j < right@.len() ==> ((#[trigger] left@[j] is Json && right@[j] is Json)
                    ==> json_array_items(*left@[j]->Json_0) is Some && json_array_items(*right@[j]->Json_0) is Some),
        decreases left@.len() - k,
    {
        match (&left[k], &right[k]) {
            (FlowValue::Json(a), FlowValue::Json(b)) => {
                if json_items(&**a).is_none() || json_items(&**b).is_none() {
                    return false;
                }
            },
            _ => {},
        }
        k += 1;
    }
    true
}

/// Joins two groups' accumulated outputs when they fit (see
/// [`merge_groups`]); otherwise leaves them as they are and says so.
pub fn merge_groups_checked(left: &mut Vec<FlowValue>, right: &Vec<FlowValue>) -> (r: bool)
    ensures
        r == groups_fit(old(left)@, right@),
        !r ==> final(left)@ == old(left)@,
        r ==> final(left)@.len() == old(left)@.len() && forall|k: int|
            0 <= k < old(left)@.len() ==> if k < right@.len() {
                concatenated(old(left)@[k], right@[k], #[trigger] final(left)@[k])
            } else {
                final(left)@[k] == old(left)@[k]
            },
{
    if !groups_fit_check(left, right) {
        return false;
    }
    merge_groups(left, right);
    true
}

} // verus!

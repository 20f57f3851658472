//! Making JSON documents from values: the gather and environment nodes.
use std::sync::Arc;
use vstd::prelude::*;

use crate::json::{
    json_array, json_array_items, json_field, json_from_int, json_from_text, json_int, json_is_object_doc,
    json_null, json_null_doc, json_object, json_string, keys_distinct,
};
use crate::nodes::{valid_inputs, EnvironmentNode, GatherJson, WorkNode};
use crate::values::{kind_of, FlowValue, WorkflowError};

verus! {

/// Whether `doc` is the document gathered from an input: a document as it
/// is, a text (or a message's text) as a JSON string, an integer as a JSON
/// number, a number as `float_json`, and nothing as `null`.
pub open spec fn gathered(input: Option<FlowValue>, float_json: serde_json::Value, message_text: Seq<char>, doc: serde_json::Value) -> bool {
    match input {
        Some(FlowValue::Json(j)) => doc == *j,
        Some(FlowValue::Text(t)) => json_string(doc) == Some(t@),
        Some(FlowValue::Number(_)) => doc == float_json,
        Some(FlowValue::Integer(n)) => doc == json_int(n as int),
        Some(FlowValue::Message(_)) => json_string(doc) == Some(message_text),
        None => json_null_doc(doc),
        _ => false,
    }
}

/// The document gathered from one input (see [`gathered`]).
fn gather_one(input: &Option<FlowValue>, float_json: &serde_json::Value, message_text: &String) -> (r: serde_json::Value)
    requires
        *input matches Some(v) ==> gather_kinds_has(kind_of(v)),
    ensures
        gathered(*input, *float_json, message_text@, r),
{
    match input {
        Some(FlowValue::Json(j)) => (**j).clone(),
        Some(FlowValue::Text(t)) => json_from_text(t.as_str()),
        Some(FlowValue::Number(_)) => float_json.clone(),
        Some(FlowValue::Integer(n)) => json_from_int(*n),
        Some(FlowValue::Message(_)) => json_from_text(message_text.as_str()),
        None => json_null(),
        Some(_) => vstd::pervasive::unreached(),
    }
}

/// Whether the gather node takes values of a kind.
pub open spec fn gather_kinds_has(k: crate::values::ValueKind) -> bool {
    crate::nodes::gather_kinds().contains(k)
}

impl GatherJson {
    /// Gathers its first `count` inputs into one JSON array (see
    /// [`gathered`]); `float_jsons` and `message_texts` give, input by input,
    /// the JSON of a number and the text of a message.
    pub fn execute(
        &self,
        inputs: &Vec<Option<FlowValue>>,
        float_jsons: &Vec<serde_json::Value>,
        message_texts: &Vec<String>,
    ) -> (r: Result<Vec<FlowValue>, WorkflowError>)
        requires
            self.count < usize::MAX,
            float_jsons@.len() == inputs@.len(),
            message_texts@.len() == inputs@.len(),
        ensures
            !valid_inputs(WorkNode::GatherJson(*self), inputs@) ==> r matches Err(WorkflowError::Required(_)),
            valid_inputs(WorkNode::GatherJson(*self), inputs@) ==> (r matches Ok(out) && out@.len() == 1 && (
            out@[0] matches FlowValue::Json(a) && (json_array_items(*a) matches Some(items) && items.len()
                == self.count && forall|k: int|
                0 <= k < self.count ==> gathered(inputs@[k], float_jsons@[k], message_texts@[k]@, #[trigger] items[k])))),
    {
        let shape = WorkNode::GatherJson(GatherJson { count: self.count });
        match shape.validate(inputs) {
            Ok(()) => {},
            Err(e) => {
                return Err(e);
            },
        }
        assert(valid_inputs(WorkNode::GatherJson(*self), inputs@));
        let mut items: Vec<serde_json::Value> = Vec::new();
        let mut k: usize = 0;
        while k < self.count
            invariant
                k <= self.count,
                self.count < inputs@.len(),
                float_jsons@.len() == inputs@.len(),
                message_texts@.len() == inputs@.len(),
                valid_inputs(WorkNode::GatherJson(*self), inputs@),
                items@.len() == k,
                forall|m: int| 0 <= m < k ==> gathered(inputs@[m], float_jsons@[m], message_texts@[m]@, #[trigger] items@[m]),
            decreases self.count - k,
        {
            proof {
                if inputs@[k as int] is Some {
                    assert(WorkNode::GatherJson(*self).kinds_at(k as int).contains(kind_of(inputs@[k as int]->Some_0)));
                }
            }
            items.push(gather_one(&inputs[k], &float_jsons[k], &message_texts[k]));
            k += 1;
        }
        Ok(vec![FlowValue::Json(Arc::new(json_array(items)))])
    }
}

impl EnvironmentNode {
    /// The process environment, read by the caller as pairs of names and
    /// values, as a JSON object of strings.
    pub fn execute(&self, vars: Vec<(String, String)>) -> (r: Vec<FlowValue>)
        requires
            forall|i: int, j: int| 0 <= i < j < vars@.len() ==> (#[trigger] vars@[i]).0@ != (#[trigger] vars@[j]).0@,
        ensures
            r@.len() == 1,
            r@[0] matches FlowValue::Json(o) && json_is_object_doc(*o) && forall|i: int|
                0 <= i < vars@.len() ==> (json_field(*o, (#[trigger] vars@[i]).0@) matches Some(v) && json_string(v)
                    == Some(vars@[i].1@)),
    {
        let ghost given = vars@;
        let mut members: Vec<(String, serde_json::Value)> = Vec::new();
        let n = vars.len();
        let mut rest = vars;
        let mut i: usize = 0;
        while i < n
            invariant
                i <= n,
                n == given.len(),
                rest@ == given.subrange(i as int, n as int),
                members@.len() == i,
                forall|m: int| 0 <= m < i ==> (#[trigger] members@[m]).0@ == given[m].0@ && json_string(members@[m].1)
                    == Some(given[m].1@),
            decreases n - i,
        {
            let (name, value) = rest.remove(0);
            proof {
                assert(rest@ =~= given.subrange(i as int + 1, n as int));
            }
            let doc = json_from_text(value.as_str());
            members.push((name, doc));
            i += 1;
        }
        proof {
            assert forall|a: int, b: int| 0 <= a < b < members@.len() implies (#[trigger] members@[a]).0@
                != (#[trigger] members@[b]).0@ by {
                assert(members@[a].0@ == given[a].0@);
                assert(members@[b].0@ == given[b].0@);
            }
        }
        let ghost ms = members@;
        let o = json_object(members);
        proof {
            assert forall|m: int| 0 <= m < given.len() implies (json_field(o, (#[trigger] given[m]).0@) matches Some(v)
                && json_string(v) == Some(given[m].1@)) by {
                assert(json_field(o, ms[m].0@) == Some(ms[m].1));
            }
        }
        vec![FlowValue::Json(Arc::new(o))]
    }
}

} // verus!

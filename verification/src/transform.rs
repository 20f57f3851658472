//! Transforming JSON documents with jq filters: the transform node.
//!
//! The filter is compiled and run by the caller with jaq: a jq filter may
//! recurse without end (and its depth bounds jaq's stack), so the run cannot
//! be promised to return. The library reads the node's inputs
//! ([`TransformJson::prepare`]) and makes the node's output of what the run
//! gave ([`TransformJson::finish`]).
use std::sync::Arc;
use vstd::prelude::*;

use crate::json::{json_array, json_array_items, json_from_int, json_from_text, json_int, json_string};
use crate::nodes::{transform_input_kinds, valid_inputs, TransformJson, WorkNode};
use crate::values::{kind_of, FlowValue, WorkflowError};

verus! {

/// Whether any output of a filter is an error.
pub open spec fn any_error(outs: Seq<Result<serde_json::Value, String>>) -> bool {
    exists|k: int| 0 <= k < outs.len() && #[trigger] outs[k] is Err
}

/// The documents of outputs that are all documents.
pub open spec fn output_docs(outs: Seq<Result<serde_json::Value, String>>) -> Seq<serde_json::Value> {
    outs.map_values(|o: Result<serde_json::Value, String>| o->Ok_0)
}

/// Whether `v` is the document that outputs without an error make: the only
/// output, or an array of them all.
pub open spec fn outputs_make(outs: Seq<Result<serde_json::Value, String>>, v: serde_json::Value) -> bool {
    &&& !any_error(outs)
    &&& if outs.len() == 1 {
        v == output_docs(outs)[0]
    } else {
        json_array_items(v) == Some(output_docs(outs))
    }
}

/// The document a filter's outputs make: an error when any output is one;
/// else the only output, or an array of them all (none, or more than one).
pub fn gather_outputs(outs: Vec<Result<serde_json::Value, String>>) -> (r: Result<serde_json::Value, String>)
    ensures
        r is Err <==> any_error(outs@),
        r matches Ok(v) ==> outputs_make(outs@, v),
{
    let ghost all = outs@;
    let mut docs: Vec<serde_json::Value> = Vec::new();
    let mut errors = String::new();
    let mut failed = false;
    let n = outs.len();
    let mut rest = outs;
    let mut i: usize = 0;
    while i < n
        invariant
            i <= n,
            n == all.len(),
            rest@ == all.subrange(i as int, n as int),
            failed <==> exists|k: int| 0 <= k < i && #[trigger] all[k] is Err,
            !failed ==> docs@ == output_docs(all.take(i as int)),
        decreases n - i,
    {
        let o = rest.remove(0);
        proof {
            assert(o == all[i as int]);
            assert(rest@ =~= all.subrange(i as int + 1, n as int));
        }
        match o {
            Ok(v) => {
                if !failed {
                    docs.push(v);
                    proof {
                        assert(all.take(i as int + 1) =~= all.take(i as int).push(all[i as int]));
                        assert(docs@ =~= output_docs(all.take(i as int + 1)));
                    }
                }
            },
            Err(e) => {
                if failed {
                    errors.append(", ");
                }
                errors.append(e.as_str());
                failed = true;
            },
        }
        i += 1;
    }
    if failed {
        let mut msg = "Errors running jaq filter [".to_owned();
        msg.append(errors.as_str());
        msg.append("]");
        return Err(msg);
    }
    proof {
        assert(all.take(n as int) =~= all);
    }
    if docs.len() == 1 {
        Ok(docs.remove(0))
    } else {
        Ok(json_array(docs))
    }
}

/// The filter a transform runs: its first input, or the node's own.
pub open spec fn filter_text(own: Seq<char>, input: Option<FlowValue>) -> Seq<char> {
    match input {
        Some(FlowValue::Text(t)) => t@,
        _ => own,
    }
}

/// Whether `doc` is the document a transform reads from its second input: a
/// document as it is, an integer as a JSON number, a text (or a message's
/// text) as a JSON string, a number as `float_json`.
pub open spec fn transform_doc(input: FlowValue, float_json: serde_json::Value, message_text: Seq<char>, doc: serde_json::Value) -> bool {
    match input {
        FlowValue::Json(j) => doc == *j,
        FlowValue::Number(_) => doc == float_json,
        FlowValue::Integer(n) => doc == json_int(n as int),
        FlowValue::Text(t) => json_string(doc) == Some(t@),
        _ => json_string(doc) == Some(message_text),
    }
}

/// What the caller's jaq run of a transform gave: the filter did not
/// compile (with jaq's report), there was no document to run it on, or the
/// outputs of the run.
#[derive(Debug, Clone, PartialEq)]
pub enum JqRun {
    NotCompiled(String),
    NoDocument,
    Ran(Vec<Result<serde_json::Value, String>>),
}

impl TransformJson {
    /// The document a transform reads from its second input (see
    /// [`transform_doc`]).
    pub fn document(input: &FlowValue, float_json: &serde_json::Value, message_text: &str) -> (r: serde_json::Value)
        requires
            transform_input_kinds().contains(kind_of(*input)),
        ensures
            transform_doc(*input, *float_json, message_text@, r),
    {
        match input {
            FlowValue::Json(j) => (**j).clone(),
            FlowValue::Number(_) => float_json.clone(),
            FlowValue::Integer(n) => json_from_int(*n),
            FlowValue::Text(t) => json_from_text(t.as_str()),
            FlowValue::Message(_) => json_from_text(message_text),
            _ => {
                proof {
                    assert(!transform_input_kinds().contains(kind_of(*input)));
                }
                vstd::pervasive::unreached()
            },
        }
    }

    /// Reads the inputs of a transform: the filter's code (first input, or
    /// the node's own) and the document of the second input, if any (see
    /// [`TransformJson::document`]). The caller then compiles the code (a
    /// filter that does not compile is reported before a missing document)
    /// and runs it on the document.
    pub fn prepare(&self, inputs: &Vec<Option<FlowValue>>, float_json: &serde_json::Value, message_text: &str) -> (r: Result<
        (String, Option<serde_json::Value>),
        WorkflowError,
    >)
        ensures
            !valid_inputs(WorkNode::TransformJson(*self), inputs@) ==> r matches Err(WorkflowError::Required(_)),
            valid_inputs(WorkNode::TransformJson(*self), inputs@) ==> (r matches Ok((code, doc)) && code@
                == filter_text(self.filter@, inputs@[0]) && match inputs@[1] {
                None => doc is None,
                Some(v) => doc matches Some(d) && transform_doc(v, *float_json, message_text@, d),
            }),
    {
        let shape = WorkNode::TransformJson(TransformJson { filter: String::new() });
        match shape.validate(inputs) {
            Ok(()) => {},
            Err(e) => {
                return Err(e);
            },
        }
        assert(valid_inputs(WorkNode::TransformJson(*self), inputs@));
        let code: String = match &inputs[0] {
            Some(FlowValue::Text(t)) => (**t).clone(),
            _ => self.filter.clone(),
        };
        let doc = match &inputs[1] {
            Some(v) => {
                proof {
                    assert(WorkNode::TransformJson(*self).kinds_at(1).contains(kind_of(*v)));
                }
                Some(TransformJson::document(v, float_json, message_text))
            },
            None => None,
        };
        Ok((code, doc))
    }

    /// The node's output of what the run gave: the document the outputs make
    /// (see [`gather_outputs`]); an error for a filter that did not compile,
    /// a missing document, or outputs with errors.
    pub fn finish(run: JqRun) -> (r: Result<Vec<FlowValue>, WorkflowError>)
        ensures
            match run {
                JqRun::NotCompiled(e) => r matches Err(WorkflowError::Unknown(m)) && m@ == "anyhow... Jaq error "@ + e@,
                JqRun::NoDocument => r matches Err(WorkflowError::Required(m)) && m@.len() == 1 && m@[0]@
                    == "JSON input required"@,
                JqRun::Ran(outs) => if any_error(outs@) {
                    r matches Err(WorkflowError::Unknown(_))
                } else {
                    r matches Ok(out) && out@.len() == 1 && (out@[0] matches FlowValue::Json(j) && outputs_make(
                        outs@,
                        *j,
                    ))
                },
            },
    {
        match run {
            JqRun::NotCompiled(e) => {
                let mut msg = "anyhow... Jaq error ".to_owned();
                msg.append(e.as_str());
                Err(WorkflowError::Unknown(msg))
            },
            JqRun::NoDocument => Err(WorkflowError::Required(vec!["JSON input required".to_owned()])),
            JqRun::Ran(outs) => {
                let ghost ov = outs@;
                match gather_outputs(outs) {
                    Ok(v) => {
                        let out = vec![FlowValue::Json(Arc::new(v))];
                        assert(out@[0] matches FlowValue::Json(j) && outputs_make(ov, *j));
                        Ok(out)
                    },
                    Err(m) => {
                        let mut msg = "anyhow... ".to_owned();
                        msg.append(m.as_str());
                        Err(WorkflowError::Unknown(msg))
                    },
                }
            },
        }
    }
}

} // verus!

//! Checking JSON documents against JSON Schemas: the validation node.
use vstd::prelude::*;

use crate::json::{json_parse, parse_json};
use crate::nodes::{valid_inputs, ValidateJson, WorkNode};
use crate::values::{kind_of, FlowValue, ValueKind, WorkflowError};
use std::sync::Arc;

verus! {

/// Whether `jsonschema::validator_for` builds a validator for a schema:
/// the schema is well formed and its references resolve.
pub uninterp spec fn schema_compiles(schema: serde_json::Value) -> bool;

/// Whether `jsonschema::validate` accepts a document under a schema.
pub uninterp spec fn schema_accepts(schema: serde_json::Value, instance: serde_json::Value) -> bool;

/// `jsonschema::validator_for`, asked only whether it succeeds.
#[verifier::external_body]
pub(crate) fn schema_builds(schema: &serde_json::Value) -> (r: bool)
    ensures
        r == schema_compiles(*schema),
{
    jsonschema::validator_for(schema).is_ok()
}

/// `jsonschema::validate`: `Ok` exactly when the document conforms to the
/// schema; the error is the first violation in its debug form, whose text is
/// not stated. The call panics on a schema that does not compile.
#[verifier::external_body]
pub(crate) fn check_schema(schema: &serde_json::Value, instance: &serde_json::Value) -> (r: Result<(), String>)
    requires
        schema_compiles(*schema),
    ensures
        r is Ok == schema_accepts(*schema, *instance),
{
    jsonschema::validate(schema, instance).map_err(|e| format!("{e:?}"))
}

/// What a validation node reads from one of its sides: a document, nothing,
/// or a text that is not JSON.
pub enum Reading {
    Document(serde_json::Value),
    Missing,
    NotJson,
}

/// What a text reads as: the document it is, or not JSON.
pub open spec fn read_text(t: Seq<char>) -> Reading {
    match json_parse(t) {
        Some(v) => Reading::Document(v),
        None => Reading::NotJson,
    }
}

/// The schema of a validation: the first input, or else the node's own
/// schema text, which is missing when empty.
pub open spec fn schema_reading(own: Seq<char>, input: Option<FlowValue>) -> Reading {
    match input {
        Some(FlowValue::Json(s)) => Reading::Document(*s),
        _ => if own.len() == 0 {
            Reading::Missing
        } else {
            read_text(own)
        },
    }
}

/// The document to check: the second input, a text or a message read as
/// JSON.
pub open spec fn instance_reading(input: Option<FlowValue>, message_text: Seq<char>) -> Reading {
    match input {
        Some(FlowValue::Json(j)) => Reading::Document(*j),
        Some(FlowValue::Text(t)) => read_text(t@),
        Some(FlowValue::Message(_)) => read_text(message_text),
        _ => Reading::Missing,
    }
}

/// Whether `e` is the error reporting a missing input with the one text `m`.
pub open spec fn missing_error(e: WorkflowError, m: Seq<char>) -> bool {
    e matches WorkflowError::Required(msgs) && msgs@.len() == 1 && msgs@[0]@ == m
}

/// Whether a validation of these inputs calls the checker only on a schema
/// that compiles.
pub open spec fn validation_defined(own: Seq<char>, inputs: Seq<Option<FlowValue>>, message_text: Seq<char>) -> bool {
    match (schema_reading(own, inputs[0]), instance_reading(inputs[1], message_text)) {
        (Reading::Document(s), Reading::Document(_)) => schema_compiles(s),
        _ => true,
    }
}

/// What a validation gives for a schema and a document it reads: the
/// document and an empty failure when the document conforms, else an error.
pub open spec fn validation_outcome(
    own: Seq<char>,
    inputs: Seq<Option<FlowValue>>,
    message_text: Seq<char>,
    r: Result<Vec<FlowValue>, WorkflowError>,
) -> bool {
    match schema_reading(own, inputs[0]) {
        Reading::Missing => r matches Err(e) && missing_error(e, "Schema is required"@),
        Reading::NotJson => r matches Err(WorkflowError::Conversion(_)),
        Reading::Document(s) => match instance_reading(inputs[1], message_text) {
            Reading::Missing => r matches Err(e) && missing_error(e, "JSON input required"@),
            Reading::NotJson => r matches Err(WorkflowError::Conversion(_)),
            Reading::Document(v) => if schema_accepts(s, v) {
                r matches Ok(out) && out@.len() == 2 && (out@[0] matches FlowValue::Json(j) && *j == v)
                    && out@[1] == FlowValue::Placeholder(ValueKind::Failure)
            } else {
                r matches Err(WorkflowError::Unknown(_))
            },
        },
    }
}

/// Reads a text as JSON, reporting a text that is not JSON.
fn read_json(text: &str) -> (r: Result<serde_json::Value, WorkflowError>)
    ensures
        match read_text(text@) {
            Reading::Document(v) => r == Ok::<serde_json::Value, WorkflowError>(v),
            _ => r matches Err(WorkflowError::Conversion(_)),
        },
{
    match parse_json(text) {
        Ok(v) => Ok(v),
        Err(e) => Err(WorkflowError::Conversion(e)),
    }
}

impl ValidateJson {
    /// Checks a document (second input: JSON, or a text or a message holding
    /// JSON) against a schema (first input, or the node's own), and passes the
    /// document on when it conforms. The schema must compile.
    pub fn execute(&self, inputs: &Vec<Option<FlowValue>>, message_text: &str) -> (r: Result<
        Vec<FlowValue>,
        WorkflowError,
    >)
        requires
            valid_inputs(WorkNode::ValidateJson(*self), inputs@) ==> validation_defined(
                self.schema@,
                inputs@,
                message_text@,
            ),
        ensures
            !valid_inputs(WorkNode::ValidateJson(*self), inputs@) ==> r matches Err(WorkflowError::Required(_)),
            valid_inputs(WorkNode::ValidateJson(*self), inputs@) ==> validation_outcome(
                self.schema@,
                inputs@,
                message_text@,
                r,
            ),
    {
        let node = WorkNode::ValidateJson(ValidateJson { schema: String::new() });
        match node.validate(inputs) {
            Ok(()) => {},
            Err(e) => {
                return Err(e);
            },
        }
        assert(valid_inputs(WorkNode::ValidateJson(*self), inputs@));
        let schema = match &inputs[0] {
            Some(FlowValue::Json(s)) => (**s).clone(),
            _ => {
                if self.schema.as_str().unicode_len() == 0 {
                    return Err(WorkflowError::Required(vec!["Schema is required".to_owned()]));
                }
                match read_json(self.schema.as_str()) {
                    Ok(s) => s,
                    Err(e) => {
                        return Err(e);
                    },
                }
            },
        };
        let instance = match &inputs[1] {
            Some(FlowValue::Json(j)) => (**j).clone(),
            Some(FlowValue::Text(t)) => match read_json(t.as_str()) {
                Ok(v) => v,
                Err(e) => {
                    return Err(e);
                },
            },
            Some(FlowValue::Message(_)) => match read_json(message_text) {
                Ok(v) => v,
                Err(e) => {
                    return Err(e);
                },
            },
            None => {
                return Err(WorkflowError::Required(vec!["JSON input required".to_owned()]));
            },
            Some(v) => {
                proof {
                    assert(WorkNode::ValidateJson(*self).kinds_at(1).contains(kind_of(*v)));
                }
                vstd::pervasive::unreached()
            },
        };
        match check_schema(&schema, &instance) {
            Ok(()) => Ok(vec![FlowValue::Json(Arc::new(instance)), FlowValue::Placeholder(ValueKind::Failure)]),
            Err(e) => {
                let mut msg = "anyhow... Validation error: ".to_owned();
                msg.append(e.as_str());
                Err(WorkflowError::Unknown(msg))
            },
        }
    }

    /// Runs the validation when its schema compiles; `None` when the schema
    /// read from the inputs does not.
    pub fn execute_checked(&self, inputs: &Vec<Option<FlowValue>>, message_text: &str) -> (r: Option<
        Result<Vec<FlowValue>, WorkflowError>,
    >)
        ensures
            r is None <==> (valid_inputs(WorkNode::ValidateJson(*self), inputs@) && !validation_defined(
                self.schema@,
                inputs@,
                message_text@,
            )),
            r matches Some(res) ==> (!valid_inputs(WorkNode::ValidateJson(*self), inputs@) ==> res matches Err(
                WorkflowError::Required(_),
            )),
            r matches Some(res) ==> (valid_inputs(WorkNode::ValidateJson(*self), inputs@) ==> validation_outcome(
                self.schema@,
                inputs@,
                message_text@,
                res,
            )),
    {
        let node = WorkNode::ValidateJson(ValidateJson { schema: String::new() });
        if node.validate(inputs).is_ok() {
            assert(valid_inputs(WorkNode::ValidateJson(*self), inputs@));
            let schema = match &inputs[0] {
                Some(FlowValue::Json(s)) => Some((**s).clone()),
                _ => if self.schema.as_str().unicode_len() == 0 {
                    None
                } else {
                    match parse_json(self.schema.as_str()) {
                        Ok(s) => Some(s),
                        Err(_) => None,
                    }
                },
            };
            let instance = match &inputs[1] {
                Some(FlowValue::Json(j)) => Some((**j).clone()),
                Some(FlowValue::Text(t)) => match parse_json(t.as_str()) {
                    Ok(v) => Some(v),
                    Err(_) => None,
                },
                Some(FlowValue::Message(_)) => match parse_json(message_text) {
                    Ok(v) => Some(v),
                    Err(_) => None,
                },
                _ => None,
            };
            match (schema, instance) {
                (Some(s), Some(_)) => {
                    if !schema_builds(&s) {
                        return None;
                    }
                },
                _ => {},
            }
        }
        Some(self.execute(inputs, message_text))
    }
}

} // verus!

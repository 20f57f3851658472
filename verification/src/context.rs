//! What a run of the root workflow starts from.
use std::sync::Arc;
use vstd::prelude::*;

use crate::chat::ChatHistory;
use crate::graph::ShadowGraph;
use crate::json::{json_empty_object, json_parse, parse_json};
use crate::values::{FlowValue, WorkflowError};

verus! {

/// Whether the bits of an IEEE 754 double are a NaN.
pub open spec fn is_nan_bits(b: u64) -> bool {
    (b >> 52u64) & 0x7ffu64 == 0x7ffu64 && b & 0xf_ffff_ffff_ffffu64 != 0
}

/// The run of the root workflow: the graph, the model and temperature chosen
/// (the temperature as the bits of its double), the conversation before the
/// run, and the user's prompt.
#[derive(Debug, Clone)]
pub struct RootContext {
    pub graph: ShadowGraph,
    pub model: String,
    pub temperature: u64,
    pub history: Arc<ChatHistory>,
    pub user_prompt: String,
}

/// The text of the input schema: the graph's own, or `{}` when it has none.
pub open spec fn schema_text(schema: Seq<char>) -> Seq<char> {
    if schema.len() == 0 {
        seq!['{', '}']
    } else {
        schema
    }
}

impl RootContext {
    /// The inputs of the start node: the model, the temperature, the
    /// conversation, the input schema as a JSON document (an empty object
    /// when the graph has none) and the prompt. A schema that is not JSON is
    /// refused.
    pub fn inputs(&self) -> (r: Result<Vec<Option<FlowValue>>, WorkflowError>)
        requires
            !is_nan_bits(self.temperature),
        ensures
            json_parse(schema_text(self.graph@.schema)) is None ==> (r matches Err(
                WorkflowError::Conversion(m),
            ) && m@ == "Invalid input schema"@),
            json_parse(schema_text(self.graph@.schema)) matches Some(schema) ==> (r matches Ok(v) && v@
                == seq![
                Some(FlowValue::Model(self.model)),
                Some(FlowValue::Number(self.temperature)),
                Some(FlowValue::Chat(self.history)),
                Some(FlowValue::Json(Arc::new(schema))),
                Some(FlowValue::Text(Arc::new(self.user_prompt))),
            ]),
    {
        let schema = if !self.graph.schema.as_str().is_empty() {
            match parse_json(self.graph.schema.as_str()) {
                Ok(v) => v,
                Err(_) => {
                    return Err(WorkflowError::Conversion("Invalid input schema".to_owned()));
                },
            }
        } else {
            json_empty_object()
        };
        let values = vec![
            Some(FlowValue::Model(self.model.clone())),
            Some(FlowValue::Number(self.temperature)),
            Some(FlowValue::Chat(self.history.clone())),
            Some(FlowValue::Json(Arc::new(schema))),
            Some(FlowValue::Text(Arc::new(self.user_prompt.clone()))),
        ];
        Ok(values)
    }
}

} // verus!

//! The description of an agent (model, temperature, instructions, context and
//! tools), and the tools that the library hands to every agent.
use std::borrow::Cow;
use std::sync::Arc;
use vstd::prelude::*;

use crate::config::ToolSelector;
use crate::utils::{chars_of, text_of};

verus! {

/// What an agent is made from. Every part is optional; the temperature is held
/// as the bits of its IEEE 754 double.
#[derive(Debug, Clone, PartialEq)]
pub struct AgentSpec {
    pub model: Option<String>,
    pub temperature: Option<u64>,
    pub preamble: Option<String>,
    pub context_doc: Option<Arc<String>>,
    pub tools: Option<Arc<ToolSelector>>,
    pub schema: Option<Arc<serde_json::Value>>,
}

/// The tools an agent may call: its own selection, or every tool when it has none.
pub open spec fn selection_of(spec: AgentSpec) -> Set<Seq<char>> {
    match spec.tools {
        Some(t) => t@,
        None => set!["*/*"@],
    }
}

impl AgentSpec {
    /// An agent with nothing set.
    pub fn new() -> (r: Self)
        ensures
            r.model is None && r.temperature is None && r.preamble is None && r.context_doc is None
                && r.tools is None && r.schema is None,
    {
        AgentSpec {
            model: None,
            temperature: None,
            preamble: None,
            context_doc: None,
            tools: None,
            schema: None,
        }
    }

    /// The tools the agent may call; every tool when it has no selection of
    /// its own.
    pub fn tool_selection(&self) -> (r: Arc<ToolSelector>)
        ensures
            r@ == selection_of(*self),
    {
        match &self.tools {
            Some(t) => t.clone(),
            None => Arc::new(ToolSelector::default()),
        }
    }

    /// The same agent with the given model.
    pub fn with_model(self, model: String) -> (r: Self)
        ensures
            r == (AgentSpec { model: Some(model), ..self }),
    {
        AgentSpec { model: Some(model), ..self }
    }

    /// The same agent with the given temperature.
    pub fn with_temperature(self, temperature: u64) -> (r: Self)
        ensures
            r == (AgentSpec { temperature: Some(temperature), ..self }),
    {
        AgentSpec { temperature: Some(temperature), ..self }
    }

    /// The same agent with the given instructions.
    pub fn with_preamble(self, preamble: String) -> (r: Self)
        ensures
            r == (AgentSpec { preamble: Some(preamble), ..self }),
    {
        AgentSpec { preamble: Some(preamble), ..self }
    }

    /// The same agent with the given background document.
    pub fn with_context_doc(self, doc: Arc<String>) -> (r: Self)
        ensures
            r == (AgentSpec { context_doc: Some(doc), ..self }),
    {
        AgentSpec { context_doc: Some(doc), ..self }
    }

    /// The same agent with the given tools.
    pub fn with_tools(self, tools: Arc<ToolSelector>) -> (r: Self)
        ensures
            r == (AgentSpec { tools: Some(tools), ..self }),
    {
        AgentSpec { tools: Some(tools), ..self }
    }

    /// The same agent, made to answer with data of the given schema.
    pub fn with_schema(self, schema: Arc<serde_json::Value>) -> (r: Self)
        ensures
            r == (AgentSpec { schema: Some(schema), ..self }),
    {
        AgentSpec { schema: Some(schema), ..self }
    }

    /// A copy with the same parts; the shared parts stay shared.
    pub fn duplicate(&self) -> (r: Self)
        ensures
            r == *self,
    {
        AgentSpec {
            model: match &self.model {
                Some(m) => Some(m.clone()),
                None => None,
            },
            temperature: self.temperature,
            preamble: match &self.preamble {
                Some(p) => Some(p.clone()),
                None => None,
            },
            context_doc: match &self.context_doc {
                Some(d) => Some(d.clone()),
                None => None,
            },
            tools: match &self.tools {
                Some(t) => Some(t.clone()),
                None => None,
            },
            schema: match &self.schema {
                Some(s) => Some(s.clone()),
                None => None,
            },
        }
    }
}

impl Default for AgentSpec {
    fn default() -> (r: Self)
        ensures
            r.model is None && r.temperature is None && r.preamble is None && r.context_doc is None
                && r.tools is None && r.schema is None,
    {
        AgentSpec::new()
    }
}

/// How a tool presents itself to a model: its name, what it does, and the
/// schema of its arguments.
#[derive(Debug, Clone)]
pub struct ToolDefinition {
    pub name: String,
    pub description: String,
    pub parameters: serde_json::Value,
}

/// The tool through which an agent submits data of a schema.
#[derive(Debug, Clone)]
pub struct StructuredSubmit {
    pub schema: serde_json::Value,
}

/// The name of the submission tool.
pub open spec fn submit_name() -> Seq<char> {
    "submit-structured-data"@
}

impl StructuredSubmit {
    /// The tool for the given schema.
    pub fn from_schema(value: &serde_json::Value) -> (r: Self)
        ensures
            r.schema == *value,
    {
        StructuredSubmit { schema: value.clone() }
    }

    /// The name of the tool.
    pub fn name() -> (r: &'static str)
        ensures
            r@ == submit_name(),
    {
        "submit-structured-data"
    }

    /// The tool's definition: its name, a request to submit the answer
    /// through it, and the schema as its parameters.
    pub fn definition(&self) -> (r: ToolDefinition)
        ensures
            r.name@ == submit_name(),
            r.parameters == self.schema,
    {
        let name = Self::name().to_owned();
        let description = "Submits a JSON value confirming to this schema.\nBe sure to use this tool to submit your response.".to_owned();
        ToolDefinition { name, description, parameters: self.schema.clone() }
    }

    /// A call hands the submitted data back unchanged.
    pub fn call(&self, args: serde_json::Value) -> (r: Result<serde_json::Value, String>)
        ensures
            r == Ok::<serde_json::Value, String>(args),
    {
        Ok(args)
    }
}

/// The tool through which an agent stops a chain of workflows.
#[derive(Debug, Clone, Copy)]
pub struct ChainBreaker;

/// What the chain breaker tells the model it does.
pub open spec fn breaker_text() -> Seq<char> {
    "Do not queue any more workflows. Stop running after the current one completes."@
}

impl ChainBreaker {
    /// The name of the tool.
    pub fn name() -> (r: &'static str)
        ensures
            r@ == "__break__"@,
    {
        "__break__"
    }

    pub fn description() -> (r: Cow<'static, str>)
        ensures
            r@ == breaker_text(),
            r matches Cow::Borrowed(_),
    {
        Cow::Borrowed("Do not queue any more workflows. Stop running after the current one completes.")
    }

    /// A call answers that the chain stops.
    pub fn call(&self) -> (r: String)
        ensures
            r@ == "Stopping workflow chain"@,
    {
        "Stopping workflow chain".to_owned()
    }
}

/// Renders templates and transforms JSON. It holds nothing: the filters and
/// templates are compiled anew for each use.
#[derive(Debug, Clone, Copy, Default)]
pub struct Transmuter {}


/// The index of the first slash at or after `i`.
pub open spec fn first_slash(s: Seq<char>, i: int) -> Option<int>
    decreases s.len() - i,
{
    if i < 0 || i >= s.len() {
        None
    } else if s[i] == '/' {
        Some(i)
    } else {
        first_slash(s, i + 1)
    }
}

/// A "provider/model" text split at its first slash.
pub open spec fn split_model(s: Seq<char>) -> Option<(Seq<char>, Seq<char>)> {
    match first_slash(s, 0) {
        Some(i) => Some((s.take(i), s.skip(i + 1))),
        None => None,
    }
}

/// Splits a text at its first slash.
fn split_at_slash(s: &str) -> (r: Option<(String, String)>)
    ensures
        match split_model(s@) {
            Some((p, m)) => r matches Some((a, b)) && a@ == p && b@ == m,
            None => r is None,
        },
{
    let cs = chars_of(s);
    let n = cs.len();
    let mut i: usize = 0;
    while i < n
        invariant
            i <= n,
            n == cs@.len(),
            cs@ == s@,
            first_slash(s@, 0) == first_slash(s@, i as int),
        decreases n - i,
    {
        if cs[i] == '/' {
            let provider = text_of(&cs, 0, i);
            let model = text_of(&cs, i + 1, n);
            assert(cs@.subrange(0, i as int) == s@.take(i as int));
            assert(cs@.subrange(i + 1, n as int) == s@.skip(i + 1));
            return Some((provider, model));
        }
        i += 1;
    }
    None
}

/// The provider and the model of a "provider/model" text, split at the first
/// slash; when the text has no slash, those of `default_model`, the model of
/// the settings.
pub fn parse_model(provider_model: &str, default_model: &str) -> (r: Result<(String, String), String>)
    ensures
        match (split_model(provider_model@), split_model(default_model@)) {
            (Some((p, m)), _) => r matches Ok((a, b)) && a@ == p && b@ == m,
            (None, Some((p, m))) => r matches Ok((a, b)) && a@ == p && b@ == m,
            (None, None) => r matches Err(e) && e@ == "Could not determine LLM provider and model"@,
        },
{
    match split_at_slash(provider_model) {
        Some(pm) => Ok(pm),
        None => match split_at_slash(default_model) {
            Some(pm) => Ok(pm),
            None => Err("Could not determine LLM provider and model".to_owned()),
        },
    }
}

} // verus!

//! The nodes of a workflow: what each one accepts on its input pins, what it
//! gives on its output pins, how urgently it runs, and what it computes.
use std::sync::Arc;
use vstd::prelude::*;

use crate::agent::AgentSpec;
use std::borrow::Cow;

use crate::chat::{
    appended, common_message, content_views, conversation, conversation_rev, entry_views, target_branch,
    tip, with_aside, ChatContent, ChatEntry, ChatHistory, ContentView, EntryView, HistoryView,
};
use crate::config::ToolSelector;
use crate::graph::{node_with_role, NodeRole, ShadowGraph};
use crate::json::{json_parse, parse_json};
use crate::utils::{extract_json, extracted};
use crate::values::{all_kinds, kind_name, kind_of, kinds_text, list_kind_of, write_kinds, FlowValue, ValueKind, WorkflowError};

verus! {

/// The priority of a node that sets none.
pub const DEFAULT_PRIORITY: usize = 5000;

/// Entry of a graph: hands the run's inputs to the graph.
#[derive(Debug, Clone, Copy, Default, PartialEq, Eq, Structural)]
pub struct Start {}

/// Exit of a graph: takes the conversation that the run ends with.
#[derive(Debug, Clone, Copy, Default, PartialEq, Eq, Structural)]
pub struct Finish {}

/// Catches the failure of a node and passes on the values that replace its outputs.
#[derive(Debug, Clone, PartialEq)]
pub struct Fallback {
    pub kinds: Vec<ValueKind>,
}

/// Passes on the first input that arrives.
#[derive(Debug, Clone, Copy, Default, PartialEq, Eq, Structural)]
pub struct Select {
    pub count: usize,
    pub kind: ValueKind,
}

/// Passes its input on, at a priority of its own.
#[derive(Debug, Clone, Copy, PartialEq, Eq, Structural)]
pub struct Demote {
    pub priority: usize,
    pub kind: ValueKind,
}

/// How a text is split into a list.
#[derive(Debug, Clone, Copy, PartialEq, Eq, Hash, Structural)]
pub enum TextSplit {
    Lines,
    Paragraphs,
    Words,
    Documents,
}

/// A text, or a list of texts split from it.
#[derive(Debug, Clone, PartialEq)]
pub struct Text {
    pub value: Arc<String>,
    pub delim: Option<TextSplit>,
}

/// Shows the value it receives.
#[derive(Debug, Clone, Copy, PartialEq, Eq, Structural)]
pub struct Preview {
    pub uuid: u128,
}

/// Emits its input under a label.
#[derive(Debug, Clone, PartialEq)]
pub struct OutputNode {
    pub label: String,
}

/// Aborts the run when its input is not empty.
#[derive(Debug, Clone, Copy, Default, PartialEq, Eq, Structural)]
pub struct Panic {}

/// A note on the canvas.
#[derive(Debug, Clone, Default, PartialEq)]
pub struct CommentNode {
    pub comment: String,
}

/// Renders a template with variables from its second input.
#[derive(Debug, Clone, Default, PartialEq)]
pub struct TemplateNode {
    pub template: String,
}

/// Gives the process environment as a JSON object.
#[derive(Debug, Clone, Copy, Default, PartialEq, Eq, Structural)]
pub struct EnvironmentNode {}

/// Parses a JSON document from a text.
#[derive(Debug, Clone, Default, PartialEq)]
pub struct ParseJson {
    pub text: String,
    pub extract: bool,
    pub as_array: bool,
}

/// Checks a JSON document against a schema.
#[derive(Debug, Clone, Default, PartialEq)]
pub struct ValidateJson {
    pub schema: String,
}

/// Transforms a JSON document with a jq filter.
#[derive(Debug, Clone, Default, PartialEq)]
pub struct TransformJson {
    pub filter: String,
}

/// Gathers its inputs into one JSON array.
#[derive(Debug, Clone, Copy, Default, PartialEq, Eq, Structural)]
pub struct GatherJson {
    pub count: usize,
}

/// A selection of tools.
#[derive(Debug, Clone, PartialEq)]
pub struct Tools {
    pub toolset: Arc<ToolSelector>,
}

/// Makes or changes an agent.
#[derive(Debug, Clone, Default, PartialEq)]
pub struct AgentNode {
    pub model: Option<String>,
    pub preamble: Option<String>,
    pub temperature: Option<u64>,
    pub agent_spec: Arc<AgentSpec>,
}

/// Gives an agent a background document.
#[derive(Debug, Clone, Default, PartialEq)]
pub struct ChatContext {
    pub context_doc: String,
    pub agent_spec: Arc<AgentSpec>,
}

/// Hangs a side conversation off the main one.
#[derive(Debug, Clone, PartialEq)]
pub struct GraftHistory {
    pub chat: Arc<ChatHistory>,
}

/// Shows only the last entries of a conversation.
#[derive(Debug, Clone, PartialEq)]
pub struct MaskHistory {
    pub limit: usize,
    pub chat: Arc<ChatHistory>,
}

/// Appends messages to a conversation.
#[derive(Debug, Clone, PartialEq)]
pub struct ExtendHistory {
    pub count: usize,
    pub history: Arc<ChatHistory>,
}

/// Routes its data (second input) to the output of the first pattern that
/// matches its key (first input), or to its last output when none does.
#[derive(Debug, Clone, PartialEq)]
pub struct Matcher {
    pub kind: ValueKind,
    /// Each pattern is alternatives separated by `|` when matching exactly,
    /// else a regular expression (an empty pattern always matches exactly).
    pub patterns: Vec<String>,
    pub exact: bool,
}

/// Asks the model for the next message of a conversation.
#[derive(Debug, Clone, PartialEq)]
pub struct ChatNode {
    pub prompt: String,
    /// The conversation after the last run.
    pub history: Arc<ChatHistory>,
}

/// Asks the model for structured data: the arguments of a tool call, or a
/// document in a schema.
#[derive(Debug, Clone, PartialEq)]
pub struct StructuredChat {
    pub prompt: String,
    /// How many more times to ask when the answer does not fit the schema.
    pub retries: usize,
    pub extract: bool,
    /// The conversation, the tool called and the data after the last run.
    pub history: Arc<ChatHistory>,
    pub tool_name: String,
    pub data: Arc<serde_json::Value>,
}

/// Calls a tool.
#[derive(Debug, Clone, PartialEq)]
pub struct InvokeTool {
    pub tool_name: String,
    /// The conversation and the tool's output after the last run.
    pub history: Arc<ChatHistory>,
    pub tool_output: String,
}

/// How a subgraph runs.
#[derive(Debug, Clone, Copy, Default, PartialEq, Eq, Hash, Structural)]
pub enum Flavor {
    /// Once, on its inputs.
    #[default]
    Simple,
    /// Once per item of its list inputs, collecting the outputs into lists.
    Iterative,
}

impl Flavor {
    pub fn is_simple(&self) -> (r: bool)
        ensures
            r == (*self == Flavor::Simple),
    {
        match self {
            Flavor::Simple => true,
            Flavor::Iterative => false,
        }
    }
}

/// A graph inside a node.
#[derive(Debug, Clone)]
pub struct Subgraph {
    pub title: String,
    pub flavor: Flavor,
    pub graph: ShadowGraph,
}

/// A node of a workflow graph.
#[derive(Debug, Clone)]
pub enum WorkNode {
    Start(Start),
    Finish(Finish),
    Fallback(Fallback),
    Select(Select),
    Demote(Demote),
    Text(Text),
    Preview(Preview),
    Output(OutputNode),
    Panic(Panic),
    Comment(CommentNode),
    Template(TemplateNode),
    Environment(EnvironmentNode),
    ParseJson(ParseJson),
    ValidateJson(ValidateJson),
    TransformJson(TransformJson),
    GatherJson(GatherJson),
    Tools(Tools),
    Agent(AgentNode),
    Context(ChatContext),
    Graft(GraftHistory),
    Mask(MaskHistory),
    Extend(ExtendHistory),
    Match(Matcher),
    Chat(ChatNode),
    Structured(StructuredChat),
    InvokeTool(InvokeTool),
    Subgraph(Subgraph),
}

/// What the start node gives on each of its pins: the model, the
/// temperature, the conversation, the input schema and the user's prompt.
pub open spec fn start_kinds() -> Seq<ValueKind> {
    seq![ValueKind::Model, ValueKind::Number, ValueKind::Chat, ValueKind::Json, ValueKind::Text]
}

/// What a template takes as its variables.
pub open spec fn template_var_kinds() -> Seq<ValueKind> {
    seq![
        ValueKind::Json,
        ValueKind::Number,
        ValueKind::Integer,
        ValueKind::Text,
        ValueKind::FloatList,
        ValueKind::IntList,
        ValueKind::TextList,
        ValueKind::Chat,
        ValueKind::Message,
        ValueKind::MsgList,
    ]
}

/// What a JSON transform takes as its document.
pub open spec fn transform_input_kinds() -> Seq<ValueKind> {
    seq![ValueKind::Json, ValueKind::Number, ValueKind::Integer, ValueKind::Text, ValueKind::Message]
}

/// What a match takes as its key.
pub open spec fn match_key_kinds() -> Seq<ValueKind> {
    seq![ValueKind::Text, ValueKind::Message, ValueKind::Number, ValueKind::Integer, ValueKind::Json]
}

/// What gathering into JSON takes.
pub open spec fn gather_kinds() -> Seq<ValueKind> {
    seq![ValueKind::Json, ValueKind::Text, ValueKind::Number, ValueKind::Integer, ValueKind::Message]
}

/// The pins a subgraph takes: one per output of its start node.
pub open spec fn subgraph_inputs(g: ShadowGraph) -> nat {
    if node_with_role(g@.nodes, g@.start, NodeRole::Start) is Some { 5 } else { 0 }
}

/// Whether a graph has a finish node.
pub open spec fn has_finish(g: ShadowGraph) -> bool {
    node_with_role(g@.nodes, g@.finish, NodeRole::Finish) is Some
}

/// The pins a subgraph gives: one per input of its finish node, and its failure.
pub open spec fn subgraph_outputs(g: ShadowGraph) -> nat {
    if has_finish(g) { 2 } else { 1 }
}

impl WorkNode {
    /// The number of input pins.
    pub open spec fn input_count(self) -> nat {
        match self {
            WorkNode::Start(_) => 0nat,
            WorkNode::Fallback(n) => n.kinds@.len() + 1,
            WorkNode::Select(n) => n.count as nat + 1,
            WorkNode::Comment(_) => 0,
            WorkNode::Template(_) => 2,
            WorkNode::Environment(_) => 0,
            WorkNode::ValidateJson(_) => 2,
            WorkNode::TransformJson(_) => 2,
            WorkNode::GatherJson(n) => n.count as nat + 1,
            WorkNode::Tools(_) => 0,
            WorkNode::Agent(_) => 5,
            WorkNode::Context(_) => 2,
            WorkNode::Graft(_) => 2,
            WorkNode::Mask(_) => 2,
            WorkNode::Extend(n) => n.count as nat + 2,
            WorkNode::Match(_) => 2,
            WorkNode::Chat(_) => 3,
            WorkNode::Structured(_) => 4,
            WorkNode::InvokeTool(_) => 4,
            WorkNode::Subgraph(n) => subgraph_inputs(n.graph),
            _ => 1,
        }
    }

    /// The number of output pins.
    pub open spec fn output_count(self) -> nat {
        match self {
            WorkNode::Start(_) => 5nat,
            WorkNode::Finish(_) => 0,
            WorkNode::Fallback(n) => n.kinds@.len(),
            WorkNode::Preview(_) => 0,
            WorkNode::Output(_) => 0,
            WorkNode::Panic(_) => 0,
            WorkNode::Comment(_) => 0,
            WorkNode::ParseJson(_) => 2,
            WorkNode::ValidateJson(_) => 2,
            WorkNode::Match(n) => n.patterns@.len() + 1,
            WorkNode::Chat(_) => 3,
            WorkNode::Structured(_) => 5,
            WorkNode::InvokeTool(_) => 4,
            WorkNode::Subgraph(n) => subgraph_outputs(n.graph),
            _ => 1,
        }
    }

    /// The kinds that input pin `pin` accepts.
    pub open spec fn kinds_at(self, pin: int) -> Seq<ValueKind> {
        match self {
            WorkNode::Finish(_) => seq![ValueKind::Chat],
            WorkNode::Fallback(n) => if pin == 0 {
                seq![ValueKind::Failure]
            } else if 0 < pin <= n.kinds@.len() && n.kinds@[pin - 1] != ValueKind::Placeholder {
                seq![n.kinds@[pin - 1]]
            } else {
                all_kinds()
            },
            WorkNode::Select(n) => if n.count == 0 {
                all_kinds()
            } else {
                seq![n.kind]
            },
            WorkNode::Demote(n) => if n.kind == ValueKind::Placeholder {
                all_kinds()
            } else {
                seq![n.kind]
            },
            WorkNode::Text(_) => seq![ValueKind::Text, ValueKind::Message],
            WorkNode::Template(_) => if pin == 0 {
                seq![ValueKind::Text]
            } else {
                template_var_kinds()
            },
            WorkNode::ParseJson(_) => seq![ValueKind::Text],
            WorkNode::ValidateJson(_) => if pin == 0 {
                seq![ValueKind::Json]
            } else {
                seq![ValueKind::Json, ValueKind::Text, ValueKind::Message]
            },
            WorkNode::TransformJson(_) => if pin == 0 {
                seq![ValueKind::Text]
            } else {
                transform_input_kinds()
            },
            WorkNode::GatherJson(_) => gather_kinds(),
            WorkNode::Agent(_) => if pin == 0 {
                seq![ValueKind::Agent]
            } else if pin == 1 {
                seq![ValueKind::Model]
            } else if pin == 2 {
                seq![ValueKind::Number]
            } else if pin == 3 {
                seq![ValueKind::Tools]
            } else {
                seq![ValueKind::Text]
            },
            WorkNode::Context(_) => if pin == 0 {
                seq![ValueKind::Agent]
            } else {
                seq![ValueKind::Text]
            },
            WorkNode::Graft(_) => seq![ValueKind::Chat],
            WorkNode::Mask(_) => if pin == 0 {
                seq![ValueKind::Chat]
            } else {
                seq![ValueKind::Integer]
            },
            WorkNode::Extend(_) => if pin == 0 {
                seq![ValueKind::Chat]
            } else {
                seq![ValueKind::Message]
            },
            WorkNode::Match(n) => if pin == 0 {
                match_key_kinds()
            } else if n.kind == ValueKind::Placeholder {
                all_kinds()
            } else {
                seq![n.kind]
            },
            WorkNode::Chat(_) => if pin == 0 {
                seq![ValueKind::Agent]
            } else if pin == 1 {
                seq![ValueKind::Chat]
            } else {
                seq![ValueKind::Text, ValueKind::Message]
            },
            WorkNode::Structured(_) => if pin == 0 {
                seq![ValueKind::Agent]
            } else if pin == 1 {
                seq![ValueKind::Chat]
            } else if pin == 2 {
                seq![ValueKind::Json]
            } else {
                seq![ValueKind::Text, ValueKind::Message]
            },
            WorkNode::InvokeTool(_) => if pin == 0 {
                seq![ValueKind::Chat]
            } else if pin == 1 {
                seq![ValueKind::Tools]
            } else if pin == 2 {
                seq![ValueKind::Text]
            } else {
                seq![ValueKind::Json]
            },
            WorkNode::Subgraph(n) => if n.flavor == Flavor::Simple {
                seq![start_kinds()[pin]]
            } else if list_kind_of(start_kinds()[pin]) == start_kinds()[pin] {
                seq![start_kinds()[pin]]
            } else {
                seq![list_kind_of(start_kinds()[pin]), start_kinds()[pin]]
            },
            _ => all_kinds(),
        }
    }

    /// The kind that output pin `pin` gives.
    pub open spec fn produces(self, pin: int) -> ValueKind {
        match self {
            WorkNode::Start(_) => start_kinds()[pin],
            WorkNode::Fallback(n) => if pin < n.kinds@.len() {
                n.kinds@[pin]
            } else {
                ValueKind::Placeholder
            },
            WorkNode::Select(n) => n.kind,
            WorkNode::Demote(n) => n.kind,
            WorkNode::Text(n) => if n.delim is None {
                ValueKind::Text
            } else {
                ValueKind::TextList
            },
            WorkNode::Template(_) => ValueKind::Text,
            WorkNode::Environment(_) => ValueKind::Json,
            WorkNode::ParseJson(_) => if pin == 0 {
                ValueKind::Json
            } else {
                ValueKind::Failure
            },
            WorkNode::ValidateJson(_) => if pin == 0 {
                ValueKind::Json
            } else {
                ValueKind::Failure
            },
            WorkNode::TransformJson(_) => ValueKind::Json,
            WorkNode::GatherJson(_) => ValueKind::Json,
            WorkNode::Tools(_) => ValueKind::Tools,
            WorkNode::Agent(_) => ValueKind::Agent,
            WorkNode::Context(_) => ValueKind::Agent,
            WorkNode::Graft(_) => ValueKind::Chat,
            WorkNode::Mask(_) => ValueKind::Chat,
            WorkNode::Extend(_) => ValueKind::Chat,
            WorkNode::Match(n) => n.kind,
            WorkNode::Chat(_) => if pin == 0 {
                ValueKind::Chat
            } else if pin == 1 {
                ValueKind::Message
            } else {
                ValueKind::Failure
            },
            WorkNode::Structured(_) => if pin == 0 {
                ValueKind::Chat
            } else if pin == 1 {
                ValueKind::Message
            } else if pin == 2 {
                ValueKind::Text
            } else if pin == 3 {
                ValueKind::Json
            } else {
                ValueKind::Failure
            },
            WorkNode::InvokeTool(_) => if pin == 0 {
                ValueKind::Chat
            } else if pin == 1 {
                ValueKind::Message
            } else if pin == 2 {
                ValueKind::Text
            } else {
                ValueKind::Failure
            },
            WorkNode::Subgraph(n) => if !has_finish(n.graph) || pin == 1 {
                if has_finish(n.graph) { ValueKind::Failure } else { ValueKind::Placeholder }
            } else {
                ValueKind::Chat
            },
            _ => ValueKind::Placeholder,
        }
    }

    /// How urgently the node runs: of the nodes that are ready, the one with
    /// the highest priority runs first.
    pub open spec fn rank(self) -> nat {
        match self {
            WorkNode::Finish(_) => 2000nat,
            WorkNode::Select(_) => 8000,
            WorkNode::Demote(n) => n.priority as nat,
            WorkNode::Preview(_) => 9999,
            WorkNode::Output(_) => 9999,
            WorkNode::Panic(_) => 9000,
            _ => 5000,
        }
    }

    /// The counts of the node leave room for its extra pins.
    pub open spec fn wf(self) -> bool {
        match self {
            WorkNode::Fallback(n) => n.kinds@.len() < usize::MAX,
            WorkNode::Select(n) => n.count < usize::MAX,
            WorkNode::GatherJson(n) => n.count < usize::MAX,
            WorkNode::Extend(n) => n.count < usize::MAX - 1,
            WorkNode::Match(n) => n.patterns@.len() < usize::MAX,
            _ => true,
        }
    }

    /// Whether the counts of the node leave room for its extra pins.
    pub fn is_wf(&self) -> (r: bool)
        ensures
            r == self.wf(),
    {
        match self {
            WorkNode::Fallback(n) => n.kinds.len() < usize::MAX,
            WorkNode::Select(n) => n.count < usize::MAX,
            WorkNode::GatherJson(n) => n.count < usize::MAX,
            WorkNode::Extend(n) => n.count < usize::MAX - 1,
            WorkNode::Match(n) => n.patterns.len() < usize::MAX,
            _ => true,
        }
    }

    pub fn inputs(&self) -> (r: usize)
        requires
            self.wf(),
        ensures
            r == self.input_count(),
    {
        match self {
            WorkNode::Start(_) => 0,
            WorkNode::Fallback(n) => n.kinds.len() + 1,
            WorkNode::Select(n) => n.count + 1,
            WorkNode::Comment(_) => 0,
            WorkNode::Template(_) => 2,
            WorkNode::Environment(_) => 0,
            WorkNode::ValidateJson(_) => 2,
            WorkNode::TransformJson(_) => 2,
            WorkNode::GatherJson(n) => n.count + 1,
            WorkNode::Tools(_) => 0,
            WorkNode::Agent(_) => 5,
            WorkNode::Context(_) => 2,
            WorkNode::Graft(_) => 2,
            WorkNode::Mask(_) => 2,
            WorkNode::Extend(n) => n.count + 2,
            WorkNode::Match(_) => 2,
            WorkNode::Chat(_) => 3,
            WorkNode::Structured(_) => 4,
            WorkNode::InvokeTool(_) => 4,
            WorkNode::Subgraph(n) => {
                if n.graph.start_node().is_some() {
                    5
                } else {
                    0
                }
            },
            _ => 1,
        }
    }

    pub fn outputs(&self) -> (r: usize)
        requires
            self.wf(),
        ensures
            r == self.output_count(),
    {
        match self {
            WorkNode::Start(_) => 5,
            WorkNode::Finish(_) => 0,
            WorkNode::Fallback(n) => n.kinds.len(),
            WorkNode::Preview(_) => 0,
            WorkNode::Output(_) => 0,
            WorkNode::Panic(_) => 0,
            WorkNode::Comment(_) => 0,
            WorkNode::ParseJson(_) => 2,
            WorkNode::ValidateJson(_) => 2,
            WorkNode::Match(n) => n.patterns.len() + 1,
            WorkNode::Chat(_) => 3,
            WorkNode::Structured(_) => 5,
            WorkNode::InvokeTool(_) => 4,
            WorkNode::Subgraph(n) => {
                if n.graph.finish_node().is_some() {
                    2
                } else {
                    1
                }
            },
            _ => 1,
        }
    }

    pub fn priority(&self) -> (r: usize)
        ensures
            r == self.rank(),
    {
        match self {
            WorkNode::Finish(_) => 2000,
            WorkNode::Select(_) => 8000,
            WorkNode::Demote(n) => n.priority,
            WorkNode::Preview(_) => 9999,
            WorkNode::Output(_) => 9999,
            WorkNode::Panic(_) => 9000,
            _ => DEFAULT_PRIORITY,
        }
    }

    /// The kinds that input pin `in_pin` accepts.
    pub fn in_kinds(&self, in_pin: usize) -> (r: Vec<ValueKind>)
        requires
            in_pin < self.input_count(),
        ensures
            r@ == self.kinds_at(in_pin as int),
    {
        let r = match self {
            WorkNode::Finish(_) => vec![ValueKind::Chat],
            WorkNode::Fallback(n) => {
                if in_pin == 0 {
                    vec![ValueKind::Failure]
                } else if in_pin <= n.kinds.len() && n.kinds[in_pin - 1] != ValueKind::Placeholder {
                    vec![n.kinds[in_pin - 1]]
                } else {
                    ValueKind::all()
                }
            },
            WorkNode::Select(n) => {
                if n.count == 0 {
                    ValueKind::all()
                } else {
                    vec![n.kind]
                }
            },
            WorkNode::Demote(n) => {
                if n.kind == ValueKind::Placeholder {
                    ValueKind::all()
                } else {
                    vec![n.kind]
                }
            },
            WorkNode::Text(_) => vec![ValueKind::Text, ValueKind::Message],
            WorkNode::Template(_) => {
                if in_pin == 0 {
                    vec![ValueKind::Text]
                } else {
                    vec![
                        ValueKind::Json,
                        ValueKind::Number,
                        ValueKind::Integer,
                        ValueKind::Text,
                        ValueKind::FloatList,
                        ValueKind::IntList,
                        ValueKind::TextList,
                        ValueKind::Chat,
                        ValueKind::Message,
                        ValueKind::MsgList,
                    ]
                }
            },
            WorkNode::ParseJson(_) => vec![ValueKind::Text],
            WorkNode::ValidateJson(_) => {
                if in_pin == 0 {
                    vec![ValueKind::Json]
                } else {
                    vec![ValueKind::Json, ValueKind::Text, ValueKind::Message]
                }
            },
            WorkNode::TransformJson(_) => {
                if in_pin == 0 {
                    vec![ValueKind::Text]
                } else {
                    vec![
                        ValueKind::Json,
                        ValueKind::Number,
                        ValueKind::Integer,
                        ValueKind::Text,
                        ValueKind::Message,
                    ]
                }
            },
            WorkNode::GatherJson(_) => vec![
                ValueKind::Json,
                ValueKind::Text,
                ValueKind::Number,
                ValueKind::Integer,
                ValueKind::Message,
            ],
            WorkNode::Agent(_) => {
                if in_pin == 0 {
                    vec![ValueKind::Agent]
                } else if in_pin == 1 {
                    vec![ValueKind::Model]
                } else if in_pin == 2 {
                    vec![ValueKind::Number]
                } else if in_pin == 3 {
                    vec![ValueKind::Tools]
                } else {
                    vec![ValueKind::Text]
                }
            },
            WorkNode::Context(_) => {
                if in_pin == 0 {
                    vec![ValueKind::Agent]
                } else {
                    vec![ValueKind::Text]
                }
            },
            WorkNode::Graft(_) => vec![ValueKind::Chat],
            WorkNode::Mask(_) => {
                if in_pin == 0 {
                    vec![ValueKind::Chat]
                } else {
                    vec![ValueKind::Integer]
                }
            },
            WorkNode::Extend(_) => {
                if in_pin == 0 {
                    vec![ValueKind::Chat]
                } else {
                    vec![ValueKind::Message]
                }
            },
            WorkNode::Match(n) => {
                if in_pin == 0 {
                    vec![
                        ValueKind::Text,
                        ValueKind::Message,
                        ValueKind::Number,
                        ValueKind::Integer,
                        ValueKind::Json,
                    ]
                } else if n.kind == ValueKind::Placeholder {
                    ValueKind::all()
                } else {
                    vec![n.kind]
                }
            },
            WorkNode::Chat(_) => {
                if in_pin == 0 {
                    vec![ValueKind::Agent]
                } else if in_pin == 1 {
                    vec![ValueKind::Chat]
                } else {
                    vec![ValueKind::Text, ValueKind::Message]
                }
            },
            WorkNode::Structured(_) => {
                if in_pin == 0 {
                    vec![ValueKind::Agent]
                } else if in_pin == 1 {
                    vec![ValueKind::Chat]
                } else if in_pin == 2 {
                    vec![ValueKind::Json]
                } else {
                    vec![ValueKind::Text, ValueKind::Message]
                }
            },
            WorkNode::InvokeTool(_) => {
                if in_pin == 0 {
                    vec![ValueKind::Chat]
                } else if in_pin == 1 {
                    vec![ValueKind::Tools]
                } else if in_pin == 2 {
                    vec![ValueKind::Text]
                } else {
                    vec![ValueKind::Json]
                }
            },
            WorkNode::Subgraph(n) => {
                let k = start_kind(in_pin);
                if n.flavor.is_simple() || k.as_list() == k {
                    vec![k]
                } else {
                    vec![k.as_list(), k]
                }
            },
            _ => ValueKind::all(),
        };
        proof {
            assert(r@ =~= self.kinds_at(in_pin as int));
        }
        r
    }

    /// The kind that output pin `out_pin` gives.
    pub fn out_kind(&self, out_pin: usize) -> (r: ValueKind)
        requires
            out_pin < self.output_count(),
        ensures
            r == self.produces(out_pin as int),
    {
        match self {
            WorkNode::Start(_) => start_kind(out_pin),
            WorkNode::Fallback(n) => {
                if out_pin < n.kinds.len() {
                    n.kinds[out_pin]
                } else {
                    ValueKind::Placeholder
                }
            },
            WorkNode::Select(n) => n.kind,
            WorkNode::Demote(n) => n.kind,
            WorkNode::Text(n) => {
                if n.delim.is_none() {
                    ValueKind::Text
                } else {
                    ValueKind::TextList
                }
            },
            WorkNode::Template(_) => ValueKind::Text,
            WorkNode::Environment(_) => ValueKind::Json,
            WorkNode::ParseJson(_) => {
                if out_pin == 0 {
                    ValueKind::Json
                } else {
                    ValueKind::Failure
                }
            },
            WorkNode::ValidateJson(_) => {
                if out_pin == 0 {
                    ValueKind::Json
                } else {
                    ValueKind::Failure
                }
            },
            WorkNode::TransformJson(_) => ValueKind::Json,
            WorkNode::GatherJson(_) => ValueKind::Json,
            WorkNode::Tools(_) => ValueKind::Tools,
            WorkNode::Agent(_) => ValueKind::Agent,
            WorkNode::Context(_) => ValueKind::Agent,
            WorkNode::Graft(_) => ValueKind::Chat,
            WorkNode::Mask(_) => ValueKind::Chat,
            WorkNode::Extend(_) => ValueKind::Chat,
            WorkNode::Match(n) => n.kind,
            WorkNode::Chat(_) => {
                if out_pin == 0 {
                    ValueKind::Chat
                } else if out_pin == 1 {
                    ValueKind::Message
                } else {
                    ValueKind::Failure
                }
            },
            WorkNode::Structured(_) => {
                if out_pin == 0 {
                    ValueKind::Chat
                } else if out_pin == 1 {
                    ValueKind::Message
                } else if out_pin == 2 {
                    ValueKind::Text
                } else if out_pin == 3 {
                    ValueKind::Json
                } else {
                    ValueKind::Failure
                }
            },
            WorkNode::InvokeTool(_) => {
                if out_pin == 0 {
                    ValueKind::Chat
                } else if out_pin == 1 {
                    ValueKind::Message
                } else if out_pin == 2 {
                    ValueKind::Text
                } else {
                    ValueKind::Failure
                }
            },
            WorkNode::Subgraph(n) => {
                let finish = n.graph.finish_node().is_some();
                if !finish || out_pin == 1 {
                    if finish {
                        ValueKind::Failure
                    } else {
                        ValueKind::Placeholder
                    }
                } else {
                    ValueKind::Chat
                }
            },
            _ => ValueKind::Placeholder,
        }
    }

    /// The node's title, which names its kind.
    pub open spec fn title_text(self) -> Seq<char> {
        match self {
            WorkNode::Start(_) => "Start"@,
            WorkNode::Finish(_) => "Finish"@,
            WorkNode::Fallback(_) => "Fallback"@,
            WorkNode::Select(_) => "Select"@,
            WorkNode::Demote(_) => "Demote"@,
            WorkNode::Text(_) => "Text"@,
            WorkNode::Preview(_) => "Preview"@,
            WorkNode::Output(_) => "Output"@,
            WorkNode::Panic(_) => "Panic"@,
            WorkNode::Comment(_) => "Comment"@,
            WorkNode::Template(_) => "Template"@,
            WorkNode::Environment(_) => "Environment"@,
            WorkNode::ParseJson(_) => "Parse JSON"@,
            WorkNode::ValidateJson(_) => "Validate JSON"@,
            WorkNode::TransformJson(_) => "Transform JSON"@,
            WorkNode::GatherJson(_) => "Gather JSON"@,
            WorkNode::Tools(_) => "Tools"@,
            WorkNode::Agent(_) => "Agent"@,
            WorkNode::Context(_) => "Context"@,
            WorkNode::Graft(_) => "Side Conversation"@,
            WorkNode::Mask(_) => "Mask Chat"@,
            WorkNode::Extend(_) => "Extend History"@,
            WorkNode::Match(_) => "Match"@,
            WorkNode::Chat(_) => "Chat"@,
            WorkNode::Structured(_) => "Structured Output"@,
            WorkNode::InvokeTool(_) => "Invoke Tool"@,
            WorkNode::Subgraph(n) => n.title@,
        }
    }

    /// The node's title, which names its kind.
    pub fn kind(&self) -> (r: &str)
        ensures
            r@ == self.title_text(),
    {
        match self {
            WorkNode::Start(_) => "Start",
            WorkNode::Finish(_) => "Finish",
            WorkNode::Fallback(_) => "Fallback",
            WorkNode::Select(_) => "Select",
            WorkNode::Demote(_) => "Demote",
            WorkNode::Text(_) => "Text",
            WorkNode::Preview(_) => "Preview",
            WorkNode::Output(_) => "Output",
            WorkNode::Panic(_) => "Panic",
            WorkNode::Comment(_) => "Comment",
            WorkNode::Template(_) => "Template",
            WorkNode::Environment(_) => "Environment",
            WorkNode::ParseJson(_) => "Parse JSON",
            WorkNode::ValidateJson(_) => "Validate JSON",
            WorkNode::TransformJson(_) => "Transform JSON",
            WorkNode::GatherJson(_) => "Gather JSON",
            WorkNode::Tools(_) => "Tools",
            WorkNode::Agent(_) => "Agent",
            WorkNode::Context(_) => "Context",
            WorkNode::Graft(_) => "Side Conversation",
            WorkNode::Mask(_) => "Mask Chat",
            WorkNode::Extend(_) => "Extend History",
            WorkNode::Match(_) => "Match",
            WorkNode::Chat(_) => "Chat",
            WorkNode::Structured(_) => "Structured Output",
            WorkNode::InvokeTool(_) => "Invoke Tool",
            WorkNode::Subgraph(n) => n.title.as_str(),
        }
    }

    pub fn is_subgraph(&self) -> (r: bool)
        ensures
            r == (*self is Subgraph),
    {
        match self {
            WorkNode::Subgraph(_) => true,
            _ => false,
        }
    }

    pub fn is_start(&self) -> (r: bool)
        ensures
            r == (*self is Start),
    {
        match self {
            WorkNode::Start(_) => true,
            _ => false,
        }
    }

    pub fn is_finish(&self) -> (r: bool)
        ensures
            r == (*self is Finish),
    {
        match self {
            WorkNode::Finish(_) => true,
            _ => false,
        }
    }

    pub fn is_comment(&self) -> (r: bool)
        ensures
            r == (*self is Comment),
    {
        match self {
            WorkNode::Comment(_) => true,
            _ => false,
        }
    }

    /// Start and finish nodes cannot be removed.
    pub fn is_protected(&self) -> (r: bool)
        ensures
            r == (*self is Start || *self is Finish),
    {
        self.is_start() || self.is_finish()
    }

    /// A node that runs as soon as any of its inputs is ready.
    pub fn is_eager(&self) -> (r: bool)
        ensures
            r == (*self is Select),
    {
        match self {
            WorkNode::Select(_) => true,
            _ => false,
        }
    }
}

/// The kind of a pin of the start node.
fn start_kind(pin: usize) -> (r: ValueKind)
    requires
        pin < 5,
    ensures
        r == start_kinds()[pin as int],
{
    if pin == 0 {
        ValueKind::Model
    } else if pin == 1 {
        ValueKind::Number
    } else if pin == 2 {
        ValueKind::Chat
    } else if pin == 3 {
        ValueKind::Json
    } else {
        ValueKind::Text
    }
}

/// A type of node payload that a [`WorkNode`] can hold.
pub trait FlexNode: Sized {
    /// The node that holds this payload.
    spec fn wrap(self) -> WorkNode;

    /// Whether the node holds a payload of this type.
    spec fn held_by(node: WorkNode) -> bool;

    /// The payload, when the node holds one of this type.
    fn downcast(node: &WorkNode) -> (r: Option<&Self>)
        ensures
            r is Some == Self::held_by(*node),
            r matches Some(t) ==> t.wrap() == *node;

    /// The payload to change in place, when the node holds one of this type.
    fn downcast_mut(node: &mut WorkNode) -> (r: Option<&mut Self>)
        ensures
            r is Some == Self::held_by(*old(node)),
            r matches Some(t) ==> (*t).wrap() == *old(node) && *final(node) == (*final(t)).wrap(),
            r is None ==> *final(node) == *old(node);
}

impl FlexNode for Start {
    open spec fn wrap(self) -> WorkNode {
        WorkNode::Start(self)
    }

    open spec fn held_by(node: WorkNode) -> bool {
        node is Start
    }

    fn downcast(node: &WorkNode) -> (r: Option<&Self>) {
        match node {
            WorkNode::Start(n) => Some(n),
            _ => None,
        }
    }

    fn downcast_mut(node: &mut WorkNode) -> (r: Option<&mut Self>) {
        match node {
            WorkNode::Start(n) => Some(n),
            _ => None,
        }
    }
}

impl FlexNode for Finish {
    open spec fn wrap(self) -> WorkNode {
        WorkNode::Finish(self)
    }

    open spec fn held_by(node: WorkNode) -> bool {
        node is Finish
    }

    fn downcast(node: &WorkNode) -> (r: Option<&Self>) {
        match node {
            WorkNode::Finish(n) => Some(n),
            _ => None,
        }
    }

    fn downcast_mut(node: &mut WorkNode) -> (r: Option<&mut Self>) {
        match node {
            WorkNode::Finish(n) => Some(n),
            _ => None,
        }
    }
}

impl FlexNode for Fallback {
    open spec fn wrap(self) -> WorkNode {
        WorkNode::Fallback(self)
    }

    open spec fn held_by(node: WorkNode) -> bool {
        node is Fallback
    }

    fn downcast(node: &WorkNode) -> (r: Option<&Self>) {
        match node {
            WorkNode::Fallback(n) => Some(n),
            _ => None,
        }
    }

    fn downcast_mut(node: &mut WorkNode) -> (r: Option<&mut Self>) {
        match node {
            WorkNode::Fallback(n) => Some(n),
            _ => None,
        }
    }
}

impl FlexNode for Select {
    open spec fn wrap(self) -> WorkNode {
        WorkNode::Select(self)
    }

    open spec fn held_by(node: WorkNode) -> bool {
        node is Select
    }

    fn downcast(node: &WorkNode) -> (r: Option<&Self>) {
        match node {
            WorkNode::Select(n) => Some(n),
            _ => None,
        }
    }

    fn downcast_mut(node: &mut WorkNode) -> (r: Option<&mut Self>) {
        match node {
            WorkNode::Select(n) => Some(n),
            _ => None,
        }
    }
}

impl FlexNode for Demote {
    open spec fn wrap(self) -> WorkNode {
        WorkNode::Demote(self)
    }

    open spec fn held_by(node: WorkNode) -> bool {
        node is Demote
    }

    fn downcast(node: &WorkNode) -> (r: Option<&Self>) {
        match node {
            WorkNode::Demote(n) => Some(n),
            _ => None,
        }
    }

    fn downcast_mut(node: &mut WorkNode) -> (r: Option<&mut Self>) {
        match node {
            WorkNode::Demote(n) => Some(n),
            _ => None,
        }
    }
}

impl FlexNode for Text {
    open spec fn wrap(self) -> WorkNode {
        WorkNode::Text(self)
    }

    open spec fn held_by(node: WorkNode) -> bool {
        node is Text
    }

    fn downcast(node: &WorkNode) -> (r: Option<&Self>) {
        match node {
            WorkNode::Text(n) => Some(n),
            _ => None,
        }
    }

    fn downcast_mut(node: &mut WorkNode) -> (r: Option<&mut Self>) {
        match node {
            WorkNode::Text(n) => Some(n),
            _ => None,
        }
    }
}

impl FlexNode for Preview {
    open spec fn wrap(self) -> WorkNode {
        WorkNode::Preview(self)
    }

    open spec fn held_by(node: WorkNode) -> bool {
        node is Preview
    }

    fn downcast(node: &WorkNode) -> (r: Option<&Self>) {
        match node {
            WorkNode::Preview(n) => Some(n),
            _ => None,
        }
    }

    fn downcast_mut(node: &mut WorkNode) -> (r: Option<&mut Self>) {
        match node {
            WorkNode::Preview(n) => Some(n),
            _ => None,
        }
    }
}

impl FlexNode for OutputNode {
    open spec fn wrap(self) -> WorkNode {
        WorkNode::Output(self)
    }

    open spec fn held_by(node: WorkNode) -> bool {
        node is Output
    }

    fn downcast(node: &WorkNode) -> (r: Option<&Self>) {
        match node {
            WorkNode::Output(n) => Some(n),
            _ => None,
        }
    }

    fn downcast_mut(node: &mut WorkNode) -> (r: Option<&mut Self>) {
        match node {
            WorkNode::Output(n) => Some(n),
            _ => None,
        }
    }
}

impl FlexNode for Panic {
    open spec fn wrap(self) -> WorkNode {
        WorkNode::Panic(self)
    }

    open spec fn held_by(node: WorkNode) -> bool {
        node is Panic
    }

    fn downcast(node: &WorkNode) -> (r: Option<&Self>) {
        match node {
            WorkNode::Panic(n) => Some(n),
            _ => None,
        }
    }

    fn downcast_mut(node: &mut WorkNode) -> (r: Option<&mut Self>) {
        match node {
            WorkNode::Panic(n) => Some(n),
            _ => None,
        }
    }
}

impl FlexNode for CommentNode {
    open spec fn wrap(self) -> WorkNode {
        WorkNode::Comment(self)
    }

    open spec fn held_by(node: WorkNode) -> bool {
        node is Comment
    }

    fn downcast(node: &WorkNode) -> (r: Option<&Self>) {
        match node {
            WorkNode::Comment(n) => Some(n),
            _ => None,
        }
    }

    fn downcast_mut(node: &mut WorkNode) -> (r: Option<&mut Self>) {
        match node {
            WorkNode::Comment(n) => Some(n),
            _ => None,
        }
    }
}

impl FlexNode for TemplateNode {
    open spec fn wrap(self) -> WorkNode {
        WorkNode::Template(self)
    }

    open spec fn held_by(node: WorkNode) -> bool {
        node is Template
    }

    fn downcast(node: &WorkNode) -> (r: Option<&Self>) {
        match node {
            WorkNode::Template(n) => Some(n),
            _ => None,
        }
    }

    fn downcast_mut(node: &mut WorkNode) -> (r: Option<&mut Self>) {
        match node {
            WorkNode::Template(n) => Some(n),
            _ => None,
        }
    }
}

impl FlexNode for EnvironmentNode {
    open spec fn wrap(self) -> WorkNode {
        WorkNode::Environment(self)
    }

    open spec fn held_by(node: WorkNode) -> bool {
        node is Environment
    }

    fn downcast(node: &WorkNode) -> (r: Option<&Self>) {
        match node {
            WorkNode::Environment(n) => Some(n),
            _ => None,
        }
    }

    fn downcast_mut(node: &mut WorkNode) -> (r: Option<&mut Self>) {
        match node {
            WorkNode::Environment(n) => Some(n),
            _ => None,
        }
    }
}

impl FlexNode for ParseJson {
    open spec fn wrap(self) -> WorkNode {
        WorkNode::ParseJson(self)
    }

    open spec fn held_by(node: WorkNode) -> bool {
        node is ParseJson
    }

    fn downcast(node: &WorkNode) -> (r: Option<&Self>) {
        match node {
            WorkNode::ParseJson(n) => Some(n),
            _ => None,
        }
    }

    fn downcast_mut(node: &mut WorkNode) -> (r: Option<&mut Self>) {
        match node {
            WorkNode::ParseJson(n) => Some(n),
            _ => None,
        }
    }
}

impl FlexNode for ValidateJson {
    open spec fn wrap(self) -> WorkNode {
        WorkNode::ValidateJson(self)
    }

    open spec fn held_by(node: WorkNode) -> bool {
        node is ValidateJson
    }

    fn downcast(node: &WorkNode) -> (r: Option<&Self>) {
        match node {
            WorkNode::ValidateJson(n) => Some(n),
            _ => None,
        }
    }

    fn downcast_mut(node: &mut WorkNode) -> (r: Option<&mut Self>) {
        match node {
            WorkNode::ValidateJson(n) => Some(n),
            _ => None,
        }
    }
}

impl FlexNode for TransformJson {
    open spec fn wrap(self) -> WorkNode {
        WorkNode::TransformJson(self)
    }

    open spec fn held_by(node: WorkNode) -> bool {
        node is TransformJson
    }

    fn downcast(node: &WorkNode) -> (r: Option<&Self>) {
        match node {
            WorkNode::TransformJson(n) => Some(n),
            _ => None,
        }
    }

    fn downcast_mut(node: &mut WorkNode) -> (r: Option<&mut Self>) {
        match node {
            WorkNode::TransformJson(n) => Some(n),
            _ => None,
        }
    }
}

impl FlexNode for GatherJson {
    open spec fn wrap(self) -> WorkNode {
        WorkNode::GatherJson(self)
    }

    open spec fn held_by(node: WorkNode) -> bool {
        node is GatherJson
    }

    fn downcast(node: &WorkNode) -> (r: Option<&Self>) {
        match node {
            WorkNode::GatherJson(n) => Some(n),
            _ => None,
        }
    }

    fn downcast_mut(node: &mut WorkNode) -> (r: Option<&mut Self>) {
        match node {
            WorkNode::GatherJson(n) => Some(n),
            _ => None,
        }
    }
}

impl FlexNode for Tools {
    open spec fn wrap(self) -> WorkNode {
        WorkNode::Tools(self)
    }

    open spec fn held_by(node: WorkNode) -> bool {
        node is Tools
    }

    fn downcast(node: &WorkNode) -> (r: Option<&Self>) {
        match node {
            WorkNode::Tools(n) => Some(n),
            _ => None,
        }
    }

    fn downcast_mut(node: &mut WorkNode) -> (r: Option<&mut Self>) {
        match node {
            WorkNode::Tools(n) => Some(n),
            _ => None,
        }
    }
}

impl FlexNode for AgentNode {
    open spec fn wrap(self) -> WorkNode {
        WorkNode::Agent(self)
    }

    open spec fn held_by(node: WorkNode) -> bool {
        node is Agent
    }

    fn downcast(node: &WorkNode) -> (r: Option<&Self>) {
        match node {
            WorkNode::Agent(n) => Some(n),
            _ => None,
        }
    }

    fn downcast_mut(node: &mut WorkNode) -> (r: Option<&mut Self>) {
        match node {
            WorkNode::Agent(n) => Some(n),
            _ => None,
        }
    }
}

impl FlexNode for ChatContext {
    open spec fn wrap(self) -> WorkNode {
        WorkNode::Context(self)
    }

    open spec fn held_by(node: WorkNode) -> bool {
        node is Context
    }

    fn downcast(node: &WorkNode) -> (r: Option<&Self>) {
        match node {
            WorkNode::Context(n) => Some(n),
            _ => None,
        }
    }

    fn downcast_mut(node: &mut WorkNode) -> (r: Option<&mut Self>) {
        match node {
            WorkNode::Context(n) => Some(n),
            _ => None,
        }
    }
}

impl FlexNode for GraftHistory {
    open spec fn wrap(self) -> WorkNode {
        WorkNode::Graft(self)
    }

    open spec fn held_by(node: WorkNode) -> bool {
        node is Graft
    }

    fn downcast(node: &WorkNode) -> (r: Option<&Self>) {
        match node {
            WorkNode::Graft(n) => Some(n),
            _ => None,
        }
    }

    fn downcast_mut(node: &mut WorkNode) -> (r: Option<&mut Self>) {
        match node {
            WorkNode::Graft(n) => Some(n),
            _ => None,
        }
    }
}

impl FlexNode for MaskHistory {
    open spec fn wrap(self) -> WorkNode {
        WorkNode::Mask(self)
    }

    open spec fn held_by(node: WorkNode) -> bool {
        node is Mask
    }

    fn downcast(node: &WorkNode) -> (r: Option<&Self>) {
        match node {
            WorkNode::Mask(n) => Some(n),
            _ => None,
        }
    }

    fn downcast_mut(node: &mut WorkNode) -> (r: Option<&mut Self>) {
        match node {
            WorkNode::Mask(n) => Some(n),
            _ => None,
        }
    }
}

impl FlexNode for ExtendHistory {
    open spec fn wrap(self) -> WorkNode {
        WorkNode::Extend(self)
    }

    open spec fn held_by(node: WorkNode) -> bool {
        node is Extend
    }

    fn downcast(node: &WorkNode) -> (r: Option<&Self>) {
        match node {
            WorkNode::Extend(n) => Some(n),
            _ => None,
        }
    }

    fn downcast_mut(node: &mut WorkNode) -> (r: Option<&mut Self>) {
        match node {
            WorkNode::Extend(n) => Some(n),
            _ => None,
        }
    }
}

impl FlexNode for Subgraph {
    open spec fn wrap(self) -> WorkNode {
        WorkNode::Subgraph(self)
    }

    open spec fn held_by(node: WorkNode) -> bool {
        node is Subgraph
    }

    fn downcast(node: &WorkNode) -> (r: Option<&Self>) {
        match node {
            WorkNode::Subgraph(n) => Some(n),
            _ => None,
        }
    }

    fn downcast_mut(node: &mut WorkNode) -> (r: Option<&mut Self>) {
        match node {
            WorkNode::Subgraph(n) => Some(n),
            _ => None,
        }
    }
}

impl WorkNode {
    /// The payload, when the node holds one of type `T`.
    pub fn as_node<T: FlexNode>(&self) -> (r: Option<&T>)
        ensures
            r is Some == T::held_by(*self),
            r matches Some(t) ==> t.wrap() == *self,
    {
        T::downcast(self)
    }

    /// The payload to change in place, when the node holds one of type `T`.
    pub fn as_node_mut<T: FlexNode>(&mut self) -> (r: Option<&mut T>)
        ensures
            r is Some == T::held_by(*old(self)),
            r matches Some(t) ==> (*t).wrap() == *old(self) && *final(self) == (*final(t)).wrap(),
            r is None ==> *final(self) == *old(self),
    {
        T::downcast_mut(self)
    }
}

/// Whether the inputs fit the node: one per input pin, and each one that is
/// present of a kind that its pin accepts.
pub open spec fn valid_inputs(node: WorkNode, inputs: Seq<Option<FlowValue>>) -> bool {
    &&& inputs.len() == node.input_count()
    &&& forall|i: int|
        0 <= i < inputs.len() && #[trigger] inputs[i] is Some ==> node.kinds_at(i).contains(
            kind_of(inputs[i]->Some_0),
        )
}

/// Whether input `i` is present and of a kind its pin does not accept.
pub open spec fn mismatched(node: WorkNode, inputs: Seq<Option<FlowValue>>, i: int) -> bool {
    inputs[i] is Some && !node.kinds_at(i).contains(kind_of(inputs[i]->Some_0))
}

/// How many of the first `n` inputs are of a kind their pin does not accept.
pub open spec fn mismatch_count(node: WorkNode, inputs: Seq<Option<FlowValue>>, n: int) -> nat
    decreases n,
{
    if n <= 0 {
        0
    } else {
        mismatch_count(node, inputs, n - 1) + if mismatched(node, inputs, n - 1) {
            1nat
        } else {
            0nat
        }
    }
}

proof fn lemma_no_mismatch(node: WorkNode, inputs: Seq<Option<FlowValue>>, n: int)
    requires
        0 <= n <= inputs.len(),
        mismatch_count(node, inputs, n) == 0,
    ensures
        forall|i: int| 0 <= i < n ==> !mismatched(node, inputs, i),
    decreases n,
{
    if n > 0 {
        lemma_no_mismatch(node, inputs, n - 1);
    }
}

proof fn lemma_some_mismatch(node: WorkNode, inputs: Seq<Option<FlowValue>>, n: int, i: int)
    requires
        0 <= i < n <= inputs.len(),
        mismatched(node, inputs, i),
    ensures
        mismatch_count(node, inputs, n) > 0,
    decreases n,
{
    if i < n - 1 {
        lemma_some_mismatch(node, inputs, n - 1, i);
    }
}

/// Whether a list of kinds holds `k`.
pub fn kinds_contain(kinds: &Vec<ValueKind>, k: ValueKind) -> (r: bool)
    ensures
        r == kinds@.contains(k),
{
    let mut i: usize = 0;
    while i < kinds.len()
        invariant
            i <= kinds@.len(),
            forall|j: int| 0 <= j < i ==> kinds@[j] != k,
        decreases kinds@.len() - i,
    {
        if kinds[i] == k {
            return true;
        }
        i += 1;
    }
    false
}

/// The report of an input of a kind that its pin does not accept: the
/// input's kind, and the kinds the pin takes.
fn mismatch_message(value: &FlowValue, kinds: &Vec<ValueKind>) -> (r: String)
    ensures
        r@ == kind_name(kind_of(*value)) + " is not one of "@ + kinds_text(kinds@),
{
    let mut msg = value.kind().name().to_owned();
    msg.append(" is not one of ");
    msg.append(write_kinds(kinds).as_str());
    msg
}

impl WorkNode {
    /// Checks the inputs against the node's pins: their number, and the kind
    /// of each one that is present. The error reports the wrong number, or
    /// each input of a kind its pin does not accept.
    pub fn validate(&self, inputs: &Vec<Option<FlowValue>>) -> (r: Result<(), WorkflowError>)
        requires
            self.wf(),
        ensures
            r is Ok <==> valid_inputs(*self, inputs@),
            r matches Err(e) ==> e matches WorkflowError::Required(msgs) && (if inputs@.len()
                != self.input_count() {
                msgs@.len() == 1 && msgs@[0]@ == "Incorrect number of inputs"@
            } else {
                msgs@.len() == mismatch_count(*self, inputs@, inputs@.len() as int)
            }),
    {
        if inputs.len() != self.inputs() {
            return Err(WorkflowError::Required(vec!["Incorrect number of inputs".to_owned()]));
        }
        let mut errors: Vec<String> = Vec::new();
        let mut i: usize = 0;
        while i < inputs.len()
            invariant
                i <= inputs@.len(),
                inputs@.len() == self.input_count(),
                errors@.len() == mismatch_count(*self, inputs@, i as int),
            decreases inputs@.len() - i,
        {
            match &inputs[i] {
                Some(value) => {
                    let kinds = self.in_kinds(i);
                    if !kinds_contain(&kinds, value.kind()) {
                        errors.push(mismatch_message(value, &kinds));
                    }
                },
                None => {},
            }
            i += 1;
        }
        if errors.len() == 0 {
            proof {
                lemma_no_mismatch(*self, inputs@, inputs@.len() as int);
                assert forall|i: int|
                    0 <= i < inputs@.len() && #[trigger] inputs@[i] is Some implies self.kinds_at(
                    i,
                ).contains(kind_of(inputs@[i]->Some_0)) by {
                    assert(!mismatched(*self, inputs@, i));
                }
            }
            Ok(())
        } else {
            proof {
                if valid_inputs(*self, inputs@) {
                    lemma_no_mismatch_of_valid(*self, inputs@, inputs@.len() as int);
                }
            }
            Err(WorkflowError::Required(errors))
        }
    }

    /// Whether a wire of kind `kind` may be connected to input pin `in_pin`.
    pub fn connect(&self, in_pin: usize, kind: ValueKind) -> (r: Result<(), String>)
        requires
            in_pin < self.input_count(),
        ensures
            r is Ok <==> self.kinds_at(in_pin as int).contains(kind),
    {
        let kinds = self.in_kinds(in_pin);
        if kinds_contain(&kinds, kind) {
            Ok(())
        } else {
            Err("Not allowed!".to_owned())
        }
    }
}

proof fn lemma_no_mismatch_of_valid(node: WorkNode, inputs: Seq<Option<FlowValue>>, n: int)
    requires
        0 <= n <= inputs.len(),
        valid_inputs(node, inputs),
    ensures
        mismatch_count(node, inputs, n) == 0,
    decreases n,
{
    if n > 0 {
        lemma_no_mismatch_of_valid(node, inputs, n - 1);
        if inputs[n - 1] is Some {
            assert(node.kinds_at(n - 1).contains(kind_of(inputs[n - 1]->Some_0)));
        }
    }
}

/// The first input that is present.
pub open spec fn first_present(inputs: Seq<Option<FlowValue>>) -> Option<FlowValue>
    decreases inputs.len(),
{
    if inputs.len() == 0 {
        None
    } else if inputs[0] is Some {
        inputs[0]
    } else {
        first_present(inputs.drop_first())
    }
}

/// The first input that is present.
pub fn find_first(inputs: &Vec<Option<FlowValue>>) -> (r: Option<FlowValue>)
    ensures
        r == first_present(inputs@),
{
    let mut i: usize = 0;
    assert(inputs@.skip(0) =~= inputs@);
    while i < inputs.len()
        invariant
            i <= inputs@.len(),
            first_present(inputs@) == first_present(inputs@.skip(i as int)),
        decreases inputs@.len() - i,
    {
        match &inputs[i] {
            Some(v) => {
                return Some(v.duplicate());
            },
            None => {
                assert(inputs@.skip(i as int).drop_first() =~= inputs@.skip(i as int + 1));
            },
        }
        i += 1;
    }
    None
}

/// An input in place of a missing one: an empty placeholder.
pub open spec fn or_default(v: Option<FlowValue>) -> FlowValue {
    match v {
        Some(x) => x,
        None => FlowValue::Placeholder(ValueKind::Placeholder),
    }
}

impl Start {
    /// The start node passes the run's inputs on; a missing one becomes a
    /// placeholder of its pin's kind.
    pub fn execute(&self, inputs: &Vec<Option<FlowValue>>) -> (r: Vec<FlowValue>)
        requires
            inputs@.len() == 5,
        ensures
            r@.len() == 5,
            forall|i: int|
                0 <= i < 5 ==> #[trigger] r@[i] == match inputs@[i] {
                    Some(v) => v,
                    None => FlowValue::Placeholder(start_kinds()[i]),
                },
    {
        let mut out: Vec<FlowValue> = Vec::new();
        let mut i: usize = 0;
        while i < 5
            invariant
                i <= 5,
                inputs@.len() == 5,
                out@.len() == i,
                forall|j: int|
                    0 <= j < i ==> #[trigger] out@[j] == match inputs@[j] {
                        Some(v) => v,
                        None => FlowValue::Placeholder(start_kinds()[j]),
                    },
            decreases 5 - i,
        {
            let v = match &inputs[i] {
                Some(v) => v.duplicate(),
                None => FlowValue::Placeholder(start_kind(i)),
            };
            out.push(v);
            i += 1;
        }
        out
    }
}

impl Fallback {
    /// Passes on the inputs after the failure, one per output; a missing one
    /// becomes an empty placeholder.
    pub fn execute(&self, inputs: &Vec<Option<FlowValue>>) -> (r: Vec<FlowValue>)
        requires
            inputs@.len() >= 1,
        ensures
            r@ == inputs@.skip(1).map_values(|v: Option<FlowValue>| or_default(v)),
    {
        let mut out: Vec<FlowValue> = Vec::new();
        let mut i: usize = 1;
        while i < inputs.len()
            invariant
                1 <= i <= inputs@.len(),
                out@ == inputs@.subrange(1, i as int).map_values(|v: Option<FlowValue>| or_default(v)),
            decreases inputs@.len() - i,
        {
            let v = match &inputs[i] {
                Some(v) => v.duplicate(),
                None => FlowValue::Placeholder(ValueKind::Placeholder),
            };
            out.push(v);
            proof {
                assert(inputs@.subrange(1, i as int + 1) =~= inputs@.subrange(1, i as int).push(inputs@[i as int]));
            }
            i += 1;
            assert(out@ =~= inputs@.subrange(1, i as int).map_values(|v: Option<FlowValue>| or_default(v)));
        }
        assert(inputs@.subrange(1, inputs@.len() as int) =~= inputs@.skip(1));
        out
    }
}

impl Select {
    /// Passes on the first input that is present.
    pub fn execute(&self, inputs: &Vec<Option<FlowValue>>) -> (r: Result<Vec<FlowValue>, WorkflowError>)
        ensures
            match first_present(inputs@) {
                Some(v) => r matches Ok(out) && out@ == seq![v],
                None => r matches Err(WorkflowError::Unknown(m)) && m@ == "Select called with empty inputs"@,
            },
    {
        match find_first(inputs) {
            Some(v) => Ok(vec![v]),
            None => Err(WorkflowError::Unknown("Select called with empty inputs".to_owned())),
        }
    }
}

impl Demote {
    /// Passes on the first input that is present.
    pub fn execute(&self, inputs: &Vec<Option<FlowValue>>) -> (r: Result<Vec<FlowValue>, WorkflowError>)
        ensures
            match first_present(inputs@) {
                Some(v) => r matches Ok(out) && out@ == seq![v],
                None => r matches Err(WorkflowError::Unknown(m)) && m@ == "Demote called with empty inputs"@,
            },
    {
        match find_first(inputs) {
            Some(v) => Ok(vec![v]),
            None => Err(WorkflowError::Unknown("Demote called with empty inputs".to_owned())),
        }
    }
}

impl Default for Demote {
    fn default() -> (r: Self)
        ensures
            r.priority == DEFAULT_PRIORITY,
            r.kind == ValueKind::Placeholder,
    {
        Demote { priority: DEFAULT_PRIORITY, kind: ValueKind::Placeholder }
    }
}

/// Whether the panic node lets its input pass: nothing, a placeholder, or an
/// empty text.
pub open spec fn panic_quiet(inputs: Seq<Option<FlowValue>>) -> bool {
    inputs.len() == 0 || match inputs[0] {
        None => true,
        Some(FlowValue::Placeholder(_)) => true,
        Some(FlowValue::Text(t)) => t@.len() == 0,
        _ => false,
    }
}

/// The report of the panic node: the kind of its input.
fn panic_message(value: &FlowValue) -> (r: String)
    ensures
        r@ == "Panic node received a non-empty input: "@ + kind_name(kind_of(*value)),
{
    let mut msg = "Panic node received a non-empty input: ".to_owned();
    msg.append(value.kind().name());
    msg
}

impl Panic {
    /// Fails the run when its input is present and not empty.
    pub fn execute(&self, inputs: &Vec<Option<FlowValue>>) -> (r: Result<Vec<FlowValue>, WorkflowError>)
        ensures
            r is Ok <==> panic_quiet(inputs@),
            r matches Ok(out) ==> out@.len() == 0,
            r matches Err(e) ==> e is Unknown,
    {
        if inputs.len() > 0 {
            match &inputs[0] {
                Some(FlowValue::Placeholder(_)) => {},
                Some(FlowValue::Text(t)) => {
                    if !t.as_str().is_empty() {
                        return Err(WorkflowError::Unknown(panic_message(inputs[0].as_ref().unwrap())));
                    }
                },
                Some(v) => {
                    return Err(WorkflowError::Unknown(panic_message(v)));
                },
                None => {},
            }
        }
        Ok(Vec::new())
    }
}

impl Preview {
    /// The preview the node records: its first input, when there is one,
    /// under the node's id. The node gives no outputs.
    pub fn execute(&self, inputs: &Vec<Option<FlowValue>>) -> (r: Option<(u128, FlowValue)>)
        ensures
            match (if inputs@.len() > 0 { inputs@[0] } else { None }) {
                Some(v) => r == Some((self.uuid, v)),
                None => r is None,
            },
    {
        if inputs.len() > 0 {
            match &inputs[0] {
                Some(v) => Some((self.uuid, v.duplicate())),
                None => None,
            }
        } else {
            None
        }
    }
}

impl OutputNode {
    /// The labelled value to emit: the first input that is present. The label
    /// must not be empty.
    pub fn execute(&self, inputs: &Vec<Option<FlowValue>>) -> (r: Result<(String, FlowValue), WorkflowError>)
        ensures
            self.label@.len() == 0 ==> (r matches Err(WorkflowError::Required(m)) && m@.len() == 1
                && m@[0]@ == "Label is required"@),
            self.label@.len() > 0 && first_present(inputs@) is None ==> (r matches Err(
                WorkflowError::Required(m),
            ) && m@.len() == 1 && m@[0]@ == "Output called with empty inputs"@),
            self.label@.len() > 0 && first_present(inputs@) is Some ==> (r matches Ok(out) && out.0@
                == self.label@ && out.1 == first_present(inputs@)->Some_0),
    {
        if self.label.as_str().is_empty() {
            return Err(WorkflowError::Required(vec!["Label is required".to_owned()]));
        }
        match find_first(inputs) {
            Some(v) => Ok((self.label.clone(), v)),
            None => Err(WorkflowError::Required(vec!["Output called with empty inputs".to_owned()])),
        }
    }
}

/// A history owned, whether it was borrowed or made anew.
pub fn owned_history(h: Cow<'_, ChatHistory>) -> (r: ChatHistory)
    ensures
        r@ == h@,
{
    match h {
        Cow::Borrowed(b) => b.duplicate(),
        Cow::Owned(o) => o,
    }
}

/// The history that a copy-on-write handle refers to.
pub fn history_ref<'a>(h: &'a Cow<'a, ChatHistory>) -> (r: &'a ChatHistory)
    ensures
        r@ == h@,
{
    match h {
        Cow::Borrowed(b) => b,
        Cow::Owned(o) => o,
    }
}

/// The history with no base message: all of its conversation is visible.
pub open spec fn unbased(v: HistoryView) -> HistoryView {
    HistoryView { base: None, ..v }
}

/// The contents of the conversation of a history, oldest first.
pub open spec fn conversation_contents(v: HistoryView) -> Seq<ContentView> {
    conversation(v).map_values(|e: EntryView| e.content)
}

/// The contents of some entries.
fn contents_of(entries: &Vec<&ChatEntry>) -> (r: Vec<ChatContent>)
    ensures
        content_views(r@) == entry_views(entries@).map_values(|e: EntryView| e.content),
{
    let mut out: Vec<ChatContent> = Vec::new();
    let mut i: usize = 0;
    while i < entries.len()
        invariant
            i <= entries@.len(),
            content_views(out@) == entry_views(entries@).take(i as int).map_values(
                |e: EntryView| e.content,
            ),
        decreases entries@.len() - i,
    {
        let c = entries[i].content.duplicate();
        let ghost before = out@;
        out.push(c);
        proof {
            assert(out@ == before.push(c));
            assert(content_views(out@) =~= content_views(before).push(c@));
            assert(entry_views(entries@).take(i as int + 1) =~= entry_views(entries@).take(i as int).push(
                entries@[i as int]@,
            ));
            assert(entry_views(entries@).take(i as int + 1).map_values(|e: EntryView| e.content)
                =~= entry_views(entries@).take(i as int).map_values(|e: EntryView| e.content).push(
                entries@[i as int]@.content,
            ));
        }
        i += 1;
    }
    assert(entry_views(entries@).take(entries@.len() as int) =~= entry_views(entries@));
    out
}

/// The main history with the side conversation hung off it: the side
/// conversation's messages after the last message it shares with the main one.
pub open spec fn grafted(main: HistoryView, side: HistoryView, ids: Seq<u128>) -> HistoryView {
    with_aside(
        main,
        conversation_contents(
            HistoryView { base: common_message(unbased(main), unbased(side)), ..side },
        ),
        ids,
    )
}

impl GraftHistory {
    /// Hangs the part of the side conversation (second input) that is not in
    /// the main one (first input) off the main conversation, and gives the result.
    pub fn execute(&mut self, inputs: &Vec<Option<FlowValue>>) -> (r: Result<
        Vec<FlowValue>,
        WorkflowError,
    >)
        requires
            inputs@.len() == 2,
        ensures
            match (inputs@[0], inputs@[1]) {
                (Some(FlowValue::Chat(main)), Some(FlowValue::Chat(side))) => r matches Ok(out)
                    && out@ == seq![FlowValue::Chat(final(self).chat)] && exists|ids: Seq<u128>|
                    #[trigger] grafted(main@, side@, ids) == final(self).chat@,
                _ => r matches Err(WorkflowError::Required(m)) && m@.len() == 1 && m@[0]@
                    == "Chat history required"@ && *final(self) == *old(self),
            },
    {
        let (main, side) = match (&inputs[0], &inputs[1]) {
            (Some(FlowValue::Chat(main)), Some(FlowValue::Chat(side))) => (main, side),
            _ => {
                return Err(WorkflowError::Required(vec!["Chat history required".to_owned()]));
            },
        };
        let main_all = main.with_base(None);
        let side_all = side.with_base(None);
        let common = history_ref(&main_all).find_common(history_ref(&side_all));
        let side_rest = side.with_base(common);
        let entries = history_ref(&side_rest).iter();
        let contents = contents_of(&entries);
        proof {
            assert(content_views(contents@) == conversation_contents(
                HistoryView { base: common_message(unbased(main@), unbased(side@)), ..side@ },
            ));
        }
        let ghost cv = content_views(contents@);
        let ghost n = contents@.len();
        let result = main.aside(contents);
        match result {
            Ok(h) => {
                let ghost ids = choose|ids: Seq<u128>| ids.len() == n && h@ == with_aside(main@, cv, ids);
                let h = owned_history(h);
                self.chat = Arc::new(h);
                assert(grafted(main@, side@, ids) == self.chat@);
                Ok(vec![FlowValue::Chat(self.chat.clone())])
            },
            Err(_) => {
                proof {
                    assert(false);
                }
                Err(WorkflowError::Required(vec!["Chat history required".to_owned()]))
            },
        }
    }
}

/// The history shown through a mask of `limit` entries: the base is moved to
/// the `limit`-th entry counted back from the tip, when the limit is under a
/// hundred and the conversation is that long; otherwise the whole conversation shows.
pub open spec fn masked(chat: HistoryView, limit: int) -> HistoryView {
    let rev = conversation_rev(unbased(chat));
    if 0 <= limit < 100 && limit < rev.len() {
        HistoryView { base: Some(rev[limit].id), ..chat }
    } else {
        unbased(chat)
    }
}

impl MaskHistory {
    /// Limits the conversation (first input) to its last entries; the limit is
    /// the second input, or the node's own.
    pub fn execute(&mut self, inputs: &Vec<Option<FlowValue>>) -> (r: Result<
        Vec<FlowValue>,
        WorkflowError,
    >)
        requires
            inputs@.len() == 2,
        ensures
            match inputs@[0] {
                Some(FlowValue::Chat(chat)) => {
                    let limit = match inputs@[1] {
                        Some(FlowValue::Integer(l)) => (l as usize) as int,
                        _ => old(self).limit as int,
                    };
                    r matches Ok(out) && out@ == seq![FlowValue::Chat(final(self).chat)]
                        && final(self).chat@ == masked(chat@, limit)
                },
                _ => r matches Err(WorkflowError::Required(m)) && m@.len() == 1 && m@[0]@
                    == "Chat history required"@ && *final(self) == *old(self),
            },
    {
        let chat = match &inputs[0] {
            Some(FlowValue::Chat(chat)) => chat,
            _ => {
                return Err(WorkflowError::Required(vec!["Chat history required".to_owned()]));
            },
        };
        let limit: usize = match &inputs[1] {
            Some(FlowValue::Integer(l)) => *l as usize,
            _ => self.limit,
        };
        let all = chat.with_base(None);
        let rev = history_ref(&all).rev_iter();
        let result = if limit < 100 && limit < rev.len() {
            proof {
                assert(entry_views(rev@)[limit as int] == rev@[limit as int]@);
            }
            owned_history(chat.with_base(Some(rev[limit].id)))
        } else {
            owned_history(chat.with_base(None))
        };
        self.chat = Arc::new(result);
        Ok(vec![FlowValue::Chat(self.chat.clone())])
    }
}

/// The messages among the inputs, in order, as contents of a history.
pub open spec fn message_contents(s: Seq<Option<FlowValue>>) -> Seq<ContentView>
    decreases s.len(),
{
    if s.len() == 0 {
        Seq::empty()
    } else {
        let rest = message_contents(s.drop_last());
        match s.last() {
            Some(FlowValue::Message(m)) => rest.push(ContentView::Message(*m)),
            _ => rest,
        }
    }
}

impl ExtendHistory {
    /// Appends the messages among the inputs after the first to the
    /// conversation (first input), and gives the result.
    pub fn execute(&mut self, inputs: &Vec<Option<FlowValue>>) -> (r: Result<
        Vec<FlowValue>,
        WorkflowError,
    >)
        requires
            inputs@.len() == old(self).count + 2,
        ensures
            match inputs@[0] {
                Some(FlowValue::Chat(chat)) => r matches Ok(out) && out@ == seq![
                    FlowValue::Chat(final(self).history),
                ] && final(self).count == old(self).count && exists|ids: Seq<u128>|
                    #[trigger] appended(
                        chat@,
                        target_branch(chat@, None),
                        message_contents(inputs@.subrange(1, old(self).count + 1)),
                        ids,
                    ) == final(self).history@,
                _ => r matches Err(WorkflowError::Required(m)) && m@.len() == 1 && m@[0]@
                    == "Chat history required"@ && *final(self) == *old(self),
            },
    {
        let chat = match &inputs[0] {
            Some(FlowValue::Chat(chat)) => chat,
            _ => {
                return Err(WorkflowError::Required(vec!["Chat history required".to_owned()]));
            },
        };
        let mut contents: Vec<ChatContent> = Vec::new();
        let mut i: usize = 1;
        let n = inputs.len();
        while i <= self.count
            invariant
                1 <= i <= self.count + 1,
                inputs@.len() == self.count + 2,
                n == inputs@.len(),
                content_views(contents@) == message_contents(inputs@.subrange(1, i as int)),
            decreases self.count + 1 - i,
        {
            proof {
                assert(inputs@.subrange(1, i as int + 1).drop_last() =~= inputs@.subrange(1, i as int));
                assert(inputs@.subrange(1, i as int + 1).last() == inputs@[i as int]);
            }
            match &inputs[i] {
                Some(FlowValue::Message(m)) => {
                    let c = ChatContent::Message((**m).clone());
                    let ghost before = contents@;
                    contents.push(c);
                    assert(content_views(contents@) =~= content_views(before).push(c@));
                },
                _ => {},
            }
            i += 1;
        }
        let ghost cv = content_views(contents@);
        let ghost n = contents@.len();
        let result = chat.extend(contents, None);
        match result {
            Ok(h) => {
                let ghost ids = choose|ids: Seq<u128>|
                    ids.len() == n && h@ == appended(chat@, target_branch(chat@, None), cv, ids);
                let h = owned_history(h);
                self.history = Arc::new(h);
                assert(appended(
                    chat@,
                    target_branch(chat@, None),
                    message_contents(inputs@.subrange(1, self.count + 1)),
                    ids,
                ) == self.history@);
                Ok(vec![FlowValue::Chat(self.history.clone())])
            },
            Err(_) => {
                proof {
                    assert(false);
                }
                Err(WorkflowError::Required(vec!["Chat history required".to_owned()]))
            },
        }
    }
}

impl ChatContext {
    /// Gives the agent (first input) the background document: the second
    /// input, or the node's own text.
    pub fn execute(&mut self, inputs: &Vec<Option<FlowValue>>) -> (r: Result<
        Vec<FlowValue>,
        WorkflowError,
    >)
        requires
            inputs@.len() == 2,
        ensures
            match inputs@[0] {
                Some(FlowValue::Agent(agent)) => r matches Ok(out) && out@ == seq![
                    FlowValue::Agent(final(self).agent_spec),
                ] && final(self).context_doc == old(self).context_doc && ({
                    let spec = *final(self).agent_spec;
                    &&& spec == AgentSpec { context_doc: spec.context_doc, ..*agent }
                    &&& spec.context_doc matches Some(d) && d@ == match inputs@[1] {
                        Some(FlowValue::Text(t)) => t@,
                        _ => old(self).context_doc@,
                    }
                }),
                _ => r matches Err(WorkflowError::Required(m)) && m@.len() == 1 && m@[0]@
                    == "Agent is required"@ && *final(self) == *old(self),
            },
    {
        let agent = match &inputs[0] {
            Some(FlowValue::Agent(agent)) => agent,
            _ => {
                return Err(WorkflowError::Required(vec!["Agent is required".to_owned()]));
            },
        };
        let doc = match &inputs[1] {
            Some(FlowValue::Text(t)) => t.clone(),
            _ => Arc::new(self.context_doc.clone()),
        };
        let spec = agent.duplicate().with_context_doc(doc);
        self.agent_spec = Arc::new(spec);
        Ok(vec![FlowValue::Agent(self.agent_spec.clone())])
    }
}

/// The agent that an agent node makes: the incoming agent (or a new one) with
/// each part that the inputs or the node set.
pub open spec fn configured(
    base: AgentSpec,
    model: Option<String>,
    temperature: Option<u64>,
    tools: Option<Arc<ToolSelector>>,
    preamble: Option<String>,
) -> AgentSpec {
    AgentSpec {
        model: if model is Some { model } else { base.model },
        temperature: if temperature is Some { temperature } else { base.temperature },
        preamble: if preamble is Some { preamble } else { base.preamble },
        tools: if tools is Some { tools } else { base.tools },
        ..base
    }
}

impl AgentNode {
    /// Makes or changes an agent: the incoming agent (first input) or a new
    /// one, with the model (second input, or the node's), the temperature
    /// (third input, or the node's), the tools (fourth input) and the
    /// instructions (fifth input, or the node's). A model or an agent is needed.
    pub fn execute(&mut self, inputs: &Vec<Option<FlowValue>>) -> (r: Result<
        Vec<FlowValue>,
        WorkflowError,
    >)
        requires
            inputs@.len() == 5,
        ensures
            ({
                let agent = match inputs@[0] {
                    Some(FlowValue::Agent(a)) => Some(*a),
                    _ => None,
                };
                let model = match inputs@[1] {
                    Some(FlowValue::Model(m)) => Some(m),
                    _ => old(self).model,
                };
                let temperature = match inputs@[2] {
                    Some(FlowValue::Number(t)) => Some(t),
                    _ => old(self).temperature,
                };
                let tools = match inputs@[3] {
                    Some(FlowValue::Tools(t)) => Some(t),
                    _ => None,
                };
                let preamble = match inputs@[4] {
                    Some(FlowValue::Text(t)) => Some(*t),
                    _ => old(self).preamble,
                };
                if agent is None && model is None {
                    r matches Err(WorkflowError::Required(m)) && m@.len() == 1 && *final(self)
                        == *old(self)
                } else {
                    let base = match agent {
                        Some(a) => a,
                        None => AgentSpec {
                            model: None,
                            temperature: None,
                            preamble: None,
                            context_doc: None,
                            tools: None,
                            schema: None,
                        },
                    };
                    r matches Ok(out) && out@ == seq![FlowValue::Agent(final(self).agent_spec)]
                        && *final(self).agent_spec == configured(
                        base,
                        model,
                        temperature,
                        tools,
                        preamble,
                    ) && final(self).model == old(self).model && final(self).preamble == old(
                        self,
                    ).preamble && final(self).temperature == old(self).temperature
                }
            }),
    {
        let agent = match &inputs[0] {
            Some(FlowValue::Agent(a)) => Some(a.duplicate()),
            _ => None,
        };
        let model = match &inputs[1] {
            Some(FlowValue::Model(m)) => Some(m.clone()),
            _ => match &self.model {
                Some(m) => Some(m.clone()),
                None => None,
            },
        };
        if agent.is_none() && model.is_none() {
            return Err(
                WorkflowError::Required(
                    vec!["Either model name or an existing agent is required.".to_owned()],
                ),
            );
        }
        let temperature = match &inputs[2] {
            Some(FlowValue::Number(t)) => Some(*t),
            _ => self.temperature,
        };
        let tools = match &inputs[3] {
            Some(FlowValue::Tools(t)) => Some(t.clone()),
            _ => None,
        };
        let preamble = match &inputs[4] {
            Some(FlowValue::Text(t)) => Some((**t).clone()),
            _ => match &self.preamble {
                Some(p) => Some(p.clone()),
                None => None,
            },
        };
        let mut spec = match agent {
            Some(a) => a,
            None => AgentSpec::new(),
        };
        match model {
            Some(m) => {
                spec = spec.with_model(m);
            },
            None => {},
        }
        match temperature {
            Some(t) => {
                spec = spec.with_temperature(t);
            },
            None => {},
        }
        match preamble {
            Some(p) => {
                spec = spec.with_preamble(p);
            },
            None => {},
        }
        match tools {
            Some(t) => {
                spec = spec.with_tools(t);
            },
            None => {},
        }
        self.agent_spec = Arc::new(spec);
        Ok(vec![FlowValue::Agent(self.agent_spec.clone())])
    }
}

/// The report of a final conversation that does not extend the session.
pub open spec fn unrelated_text() -> Seq<char> {
    "Final chat history is not related to the session. Refusing to overwrite."@
}

impl Finish {
    /// The session that the run leaves behind: the final conversation (the
    /// input), shown whole, when it holds every message of the session; no
    /// change when there is no input.
    pub fn execute(&self, session: &ChatHistory, inputs: &Vec<Option<FlowValue>>) -> (r: Result<
        Option<ChatHistory>,
        WorkflowError,
    >)
        requires
            inputs@.len() == 1,
        ensures
            match inputs@[0] {
                Some(FlowValue::Chat(chat)) => if session@.store.dom().subset_of(chat@.store.dom()) {
                    r matches Ok(Some(h)) && h@ == unbased(chat@)
                } else {
                    r matches Err(WorkflowError::Conversion(m)) && m@ == unrelated_text()
                },
                _ => r matches Ok(None),
            },
    {
        match &inputs[0] {
            Some(FlowValue::Chat(chat)) => {
                if session.is_subset(chat) {
                    Ok(Some(owned_history(chat.with_base(None))))
                } else {
                    Err(
                        WorkflowError::Conversion(
                            "Final chat history is not related to the session. Refusing to overwrite.".to_owned(),
                        ),
                    )
                }
            },
            _ => Ok(None),
        }
    }
}

impl Tools {
    /// The selection the node gives.
    pub fn value(&self) -> (r: FlowValue)
        ensures
            r == FlowValue::Tools(self.toolset),
    {
        FlowValue::Tools(self.toolset.clone())
    }
}

impl Default for Tools {
    fn default() -> (r: Self)
        ensures
            r.toolset@ == set!["*/*"@],
    {
        Tools { toolset: Arc::new(ToolSelector::default()) }
    }
}

/// The message the conversation ends at, as a value; an empty message
/// placeholder when it ends at no message.
pub open spec fn last_message(h: HistoryView) -> FlowValue {
    match tip(h, h.head) {
        Some(id) => if h.store.contains_key(id) && h.store[id].content is Message {
            FlowValue::Message(Arc::new(h.store[id].content->Message_0))
        } else {
            FlowValue::Placeholder(ValueKind::Message)
        },
        None => FlowValue::Placeholder(ValueKind::Message),
    }
}

/// The message the conversation ends at, as a value.
fn last_message_value(h: &ChatHistory) -> (r: FlowValue)
    ensures
        r == last_message(h@),
{
    match h.last() {
        Some(e) => match &e.content {
            ChatContent::Message(m) => FlowValue::Message(Arc::new(m.clone())),
            _ => FlowValue::Placeholder(ValueKind::Message),
        },
        None => FlowValue::Placeholder(ValueKind::Message),
    }
}

impl FlexNode for Matcher {
    open spec fn wrap(self) -> WorkNode {
        WorkNode::Match(self)
    }

    open spec fn held_by(node: WorkNode) -> bool {
        node is Match
    }

    fn downcast(node: &WorkNode) -> (r: Option<&Self>) {
        match node {
            WorkNode::Match(n) => Some(n),
            _ => None,
        }
    }

    fn downcast_mut(node: &mut WorkNode) -> (r: Option<&mut Self>) {
        match node {
            WorkNode::Match(n) => Some(n),
            _ => None,
        }
    }
}

impl Default for Matcher {
    /// A match of no kind, with no patterns, matching exactly.
    fn default() -> (r: Self)
        ensures
            r.kind == ValueKind::Placeholder,
            r.patterns@.len() == 0,
            r.exact,
    {
        Matcher { kind: ValueKind::Placeholder, patterns: Vec::new(), exact: true }
    }
}

impl FlexNode for ChatNode {
    open spec fn wrap(self) -> WorkNode {
        WorkNode::Chat(self)
    }

    open spec fn held_by(node: WorkNode) -> bool {
        node is Chat
    }

    fn downcast(node: &WorkNode) -> (r: Option<&Self>) {
        match node {
            WorkNode::Chat(n) => Some(n),
            _ => None,
        }
    }

    fn downcast_mut(node: &mut WorkNode) -> (r: Option<&mut Self>) {
        match node {
            WorkNode::Chat(n) => Some(n),
            _ => None,
        }
    }
}

impl FlexNode for StructuredChat {
    open spec fn wrap(self) -> WorkNode {
        WorkNode::Structured(self)
    }

    open spec fn held_by(node: WorkNode) -> bool {
        node is Structured
    }

    fn downcast(node: &WorkNode) -> (r: Option<&Self>) {
        match node {
            WorkNode::Structured(n) => Some(n),
            _ => None,
        }
    }

    fn downcast_mut(node: &mut WorkNode) -> (r: Option<&mut Self>) {
        match node {
            WorkNode::Structured(n) => Some(n),
            _ => None,
        }
    }
}

impl FlexNode for InvokeTool {
    open spec fn wrap(self) -> WorkNode {
        WorkNode::InvokeTool(self)
    }

    open spec fn held_by(node: WorkNode) -> bool {
        node is InvokeTool
    }

    fn downcast(node: &WorkNode) -> (r: Option<&Self>) {
        match node {
            WorkNode::InvokeTool(n) => Some(n),
            _ => None,
        }
    }

    fn downcast_mut(node: &mut WorkNode) -> (r: Option<&mut Self>) {
        match node {
            WorkNode::InvokeTool(n) => Some(n),
            _ => None,
        }
    }
}

impl WorkNode {
    /// What output pin `pin` holds outside a run: the node's own value where
    /// it keeps one, else an empty placeholder of the pin's kind.
    pub open spec fn held_value(self, pin: int) -> FlowValue {
        match self {
            WorkNode::Text(n) => FlowValue::Text(n.value),
            WorkNode::Tools(n) => FlowValue::Tools(n.toolset),
            WorkNode::Agent(n) => FlowValue::Agent(n.agent_spec),
            WorkNode::Context(n) => FlowValue::Agent(n.agent_spec),
            WorkNode::Graft(n) => FlowValue::Chat(n.chat),
            WorkNode::Mask(n) => FlowValue::Chat(n.chat),
            WorkNode::Extend(n) => FlowValue::Chat(n.history),
            WorkNode::Chat(n) => if pin == 0 {
                FlowValue::Chat(n.history)
            } else if pin == 1 {
                last_message(n.history@)
            } else {
                FlowValue::Placeholder(ValueKind::Failure)
            },
            WorkNode::Structured(n) => if pin == 0 {
                FlowValue::Chat(n.history)
            } else if pin == 1 {
                last_message(n.history@)
            } else if pin == 2 {
                FlowValue::Text(Arc::new(n.tool_name))
            } else if pin == 3 {
                FlowValue::Json(n.data)
            } else {
                FlowValue::Placeholder(ValueKind::Failure)
            },
            WorkNode::InvokeTool(n) => if pin == 0 {
                FlowValue::Chat(n.history)
            } else if pin == 1 {
                last_message(n.history@)
            } else if pin == 2 {
                FlowValue::Text(Arc::new(n.tool_output))
            } else {
                FlowValue::Placeholder(ValueKind::Failure)
            },
            _ => FlowValue::Placeholder(self.produces(pin)),
        }
    }

    /// What output pin `out_pin` holds outside a run.
    pub fn value(&self, out_pin: usize) -> (r: FlowValue)
        requires
            out_pin < self.output_count(),
        ensures
            r == self.held_value(out_pin as int),
    {
        match self {
            WorkNode::Text(n) => FlowValue::Text(n.value.clone()),
            WorkNode::Tools(n) => FlowValue::Tools(n.toolset.clone()),
            WorkNode::Agent(n) => FlowValue::Agent(n.agent_spec.clone()),
            WorkNode::Context(n) => FlowValue::Agent(n.agent_spec.clone()),
            WorkNode::Graft(n) => FlowValue::Chat(n.chat.clone()),
            WorkNode::Mask(n) => FlowValue::Chat(n.chat.clone()),
            WorkNode::Extend(n) => FlowValue::Chat(n.history.clone()),
            WorkNode::Chat(n) => {
                if out_pin == 0 {
                    FlowValue::Chat(n.history.clone())
                } else if out_pin == 1 {
                    last_message_value(&n.history)
                } else {
                    FlowValue::Placeholder(ValueKind::Failure)
                }
            },
            WorkNode::Structured(n) => {
                if out_pin == 0 {
                    FlowValue::Chat(n.history.clone())
                } else if out_pin == 1 {
                    last_message_value(&n.history)
                } else if out_pin == 2 {
                    FlowValue::Text(Arc::new(n.tool_name.clone()))
                } else if out_pin == 3 {
                    FlowValue::Json(n.data.clone())
                } else {
                    FlowValue::Placeholder(ValueKind::Failure)
                }
            },
            WorkNode::InvokeTool(n) => {
                if out_pin == 0 {
                    FlowValue::Chat(n.history.clone())
                } else if out_pin == 1 {
                    last_message_value(&n.history)
                } else if out_pin == 2 {
                    FlowValue::Text(Arc::new(n.tool_output.clone()))
                } else {
                    FlowValue::Placeholder(ValueKind::Failure)
                }
            },
            _ => FlowValue::Placeholder(self.out_kind(out_pin)),
        }
    }
}

/// The text a parse works on: its input, or the node's own text.
pub open spec fn parse_source(n: ParseJson, inputs: Seq<Option<FlowValue>>) -> Seq<char> {
    match inputs[0] {
        Some(FlowValue::Text(t)) => t@,
        _ => n.text@,
    }
}

/// What the parse node gives for a document: the document, and an empty
/// failure.
pub open spec fn parsed_outputs(out: Seq<FlowValue>, v: serde_json::Value) -> bool {
    &&& out.len() == 2
    &&& out[0] matches FlowValue::Json(j) && *j == v
    &&& out[1] == FlowValue::Placeholder(ValueKind::Failure)
}

impl ParseJson {
    /// Parses the text (its input, or the node's own) as one JSON document;
    /// when that fails and the node extracts, finds a document inside the text.
    pub fn execute(&self, inputs: &Vec<Option<FlowValue>>) -> (r: Result<Vec<FlowValue>, WorkflowError>)
        requires
            inputs@.len() == 1,
        ensures
            match json_parse(parse_source(*self, inputs@)) {
                Some(v) => r matches Ok(out) && parsed_outputs(out@, v),
                None => if self.extract {
                    match extracted(parse_source(*self, inputs@), self.as_array) {
                        Some(v) => r matches Ok(out) && parsed_outputs(out@, v),
                        None => r matches Err(WorkflowError::Conversion(m)) && m@ == if self.as_array {
                            "Could not find a JSON array inside text"@
                        } else {
                            "Could not find a JSON object inside text"@
                        },
                    }
                } else {
                    r matches Err(WorkflowError::Conversion(_))
                },
            },
    {
        let text: &str = match &inputs[0] {
            Some(FlowValue::Text(t)) => t.as_str(),
            _ => self.text.as_str(),
        };
        let value = match parse_json(text) {
            Ok(v) => v,
            Err(e) => {
                if self.extract {
                    match extract_json(text, self.as_array) {
                        Some(v) => v,
                        None => {
                            let msg = if self.as_array {
                                "Could not find a JSON array inside text"
                            } else {
                                "Could not find a JSON object inside text"
                            };
                            return Err(WorkflowError::Conversion(msg.to_owned()));
                        },
                    }
                } else {
                    let mut msg = "Invalid JSON: ".to_owned();
                    msg.append(e.as_str());
                    return Err(WorkflowError::Conversion(msg));
                }
            },
        };
        Ok(vec![FlowValue::Json(Arc::new(value)), FlowValue::Placeholder(ValueKind::Failure)])
    }
}

/// The kind of a message that a node makes.
#[derive(Debug, Clone, Copy, Default, PartialEq, Eq, Hash, Structural)]
pub enum MessageKind {
    #[default]
    Error,
    User,
    Assistant,
    ToolCall,
    ToolResult,
}

/// Every message kind, in the order they are declared.
pub open spec fn all_message_kinds() -> Seq<MessageKind> {
    seq![
        MessageKind::Error,
        MessageKind::User,
        MessageKind::Assistant,
        MessageKind::ToolCall,
        MessageKind::ToolResult,
    ]
}

impl MessageKind {
    /// Every message kind, in the order they are declared.
    pub fn iter() -> (r: Vec<MessageKind>)
        ensures
            r@ == all_message_kinds(),
    {
        let r = vec![
            MessageKind::Error,
            MessageKind::User,
            MessageKind::Assistant,
            MessageKind::ToolCall,
            MessageKind::ToolResult,
        ];
        assert(r@ =~= all_message_kinds());
        r
    }
}

} // verus!

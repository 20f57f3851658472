//! The values that flow along the wires of a workflow, their kinds, and the
//! errors of a run.
use std::sync::Arc;
use vstd::prelude::*;

use crate::agent::AgentSpec;
use crate::chat::ChatHistory;
use crate::config::ToolSelector;

verus! {

/// The kind of a value: what a pin carries.
#[derive(Debug, Clone, Copy, PartialEq, Eq, Hash, Structural)]
pub enum ValueKind {
    Placeholder,
    Failure,
    Text,
    TextList,
    Number,
    FloatList,
    Integer,
    IntList,
    Json,
    Model,
    Agent,
    Tools,
    Chat,
    Message,
    MsgList,
}

/// Every kind, in the order they are declared.
pub open spec fn all_kinds() -> Seq<ValueKind> {
    seq![
        ValueKind::Placeholder,
        ValueKind::Failure,
        ValueKind::Text,
        ValueKind::TextList,
        ValueKind::Number,
        ValueKind::FloatList,
        ValueKind::Integer,
        ValueKind::IntList,
        ValueKind::Json,
        ValueKind::Model,
        ValueKind::Agent,
        ValueKind::Tools,
        ValueKind::Chat,
        ValueKind::Message,
        ValueKind::MsgList,
    ]
}

/// Whether a kind is one of the lists.
pub open spec fn kind_is_list(k: ValueKind) -> bool {
    k == ValueKind::TextList || k == ValueKind::FloatList || k == ValueKind::IntList || k
        == ValueKind::MsgList
}

/// The list kind whose items are of kind `k`; other kinds stand for themselves.
pub open spec fn list_kind_of(k: ValueKind) -> ValueKind {
    match k {
        ValueKind::Text => ValueKind::TextList,
        ValueKind::Integer => ValueKind::IntList,
        ValueKind::Number => ValueKind::FloatList,
        ValueKind::Message => ValueKind::MsgList,
        _ => k,
    }
}

impl ValueKind {
    /// Every kind, in the order they are declared.
    pub fn all() -> (r: Vec<ValueKind>)
        ensures
            r@ == all_kinds(),
    {
        let r = vec![
            ValueKind::Placeholder,
            ValueKind::Failure,
            ValueKind::Text,
            ValueKind::TextList,
            ValueKind::Number,
            ValueKind::FloatList,
            ValueKind::Integer,
            ValueKind::IntList,
            ValueKind::Json,
            ValueKind::Model,
            ValueKind::Agent,
            ValueKind::Tools,
            ValueKind::Chat,
            ValueKind::Message,
            ValueKind::MsgList,
        ];
        assert(r@ =~= all_kinds());
        r
    }

    pub fn is_list(&self) -> (r: bool)
        ensures
            r == kind_is_list(*self),
    {
        match self {
            ValueKind::TextList | ValueKind::FloatList | ValueKind::IntList | ValueKind::MsgList => true,
            _ => false,
        }
    }

    /// The list kind whose items are of this kind; other kinds stand for themselves.
    pub fn as_list(&self) -> (r: ValueKind)
        ensures
            r == list_kind_of(*self),
    {
        match self {
            ValueKind::Text => ValueKind::TextList,
            ValueKind::Integer => ValueKind::IntList,
            ValueKind::Number => ValueKind::FloatList,
            ValueKind::Message => ValueKind::MsgList,
            k => *k,
        }
    }
}

/// Every kind occurs in the list of all kinds.
pub proof fn law_all_kinds_complete(k: ValueKind)
    ensures
        all_kinds().contains(k),
{
    let a = all_kinds();
    match k {
        ValueKind::Placeholder => assert(a[0] == k),
        ValueKind::Failure => assert(a[1] == k),
        ValueKind::Text => assert(a[2] == k),
        ValueKind::TextList => assert(a[3] == k),
        ValueKind::Number => assert(a[4] == k),
        ValueKind::FloatList => assert(a[5] == k),
        ValueKind::Integer => assert(a[6] == k),
        ValueKind::IntList => assert(a[7] == k),
        ValueKind::Json => assert(a[8] == k),
        ValueKind::Model => assert(a[9] == k),
        ValueKind::Agent => assert(a[10] == k),
        ValueKind::Tools => assert(a[11] == k),
        ValueKind::Chat => assert(a[12] == k),
        ValueKind::Message => assert(a[13] == k),
        ValueKind::MsgList => assert(a[14] == k),
    }
}

impl Default for ValueKind {
    fn default() -> (r: Self)
        ensures
            r == ValueKind::Placeholder,
    {
        ValueKind::Placeholder
    }
}

/// What the finish node of an unfinished run was doing when the run stopped.
#[derive(Debug, Clone, PartialEq)]
pub enum FinishState {
    /// Still waiting on these nodes.
    Waiting(im::OrdSet<usize>),
    Ready,
    Running,
    Done,
    Disabled,
    Failed,
}

/// The errors of a run. Errors of outside services are carried as their text.
#[derive(Debug, Clone, PartialEq)]
pub enum WorkflowError {
    /// Inputs are missing or of the wrong kind.
    Required(Vec<String>),
    /// A value could not be converted.
    Conversion(String),
    /// The model provider failed.
    Provider(String),
    /// The model answered without calling a tool.
    MissingToolCall,
    /// A tool call failed.
    ToolCall(String),
    /// The tool server failed.
    ToolServerCall(String),
    /// A value does not conform to its schema.
    Validation(String),
    Interrupted,
    Timeout,
    /// The graph stopped before its finish node ran.
    Unfinished(FinishState),
    /// A subgraph failed.
    Subgraph(Arc<WorkflowError>),
    Unknown(String),
}

/// A value on a wire. Numbers are held as the bits of their IEEE 754 double;
/// messages as their JSON form.
#[derive(Debug, Clone, PartialEq)]
pub enum FlowValue {
    Placeholder(ValueKind),
    Failure(Arc<WorkflowError>),
    Text(Arc<String>),
    TextList(Arc<Vec<String>>),
    Number(u64),
    FloatList(Arc<Vec<u64>>),
    Integer(i64),
    IntList(Arc<Vec<i64>>),
    Json(Arc<serde_json::Value>),
    Model(String),
    Agent(Arc<AgentSpec>),
    Tools(Arc<ToolSelector>),
    Chat(Arc<ChatHistory>),
    Message(Arc<serde_json::Value>),
    MsgList(Arc<Vec<serde_json::Value>>),
}

/// The kind of a value.
pub open spec fn kind_of(v: FlowValue) -> ValueKind {
    match v {
        FlowValue::Placeholder(_) => ValueKind::Placeholder,
        FlowValue::Failure(_) => ValueKind::Failure,
        FlowValue::Text(_) => ValueKind::Text,
        FlowValue::TextList(_) => ValueKind::TextList,
        FlowValue::Number(_) => ValueKind::Number,
        FlowValue::FloatList(_) => ValueKind::FloatList,
        FlowValue::Integer(_) => ValueKind::Integer,
        FlowValue::IntList(_) => ValueKind::IntList,
        FlowValue::Json(_) => ValueKind::Json,
        FlowValue::Model(_) => ValueKind::Model,
        FlowValue::Agent(_) => ValueKind::Agent,
        FlowValue::Tools(_) => ValueKind::Tools,
        FlowValue::Chat(_) => ValueKind::Chat,
        FlowValue::Message(_) => ValueKind::Message,
        FlowValue::MsgList(_) => ValueKind::MsgList,
    }
}

/// The name of a kind, as it is written.
pub open spec fn kind_name(k: ValueKind) -> Seq<char> {
    match k {
        ValueKind::Placeholder => "Placeholder"@,
        ValueKind::Failure => "Failure"@,
        ValueKind::Text => "Text"@,
        ValueKind::TextList => "TextList"@,
        ValueKind::Number => "Number"@,
        ValueKind::FloatList => "FloatList"@,
        ValueKind::Integer => "Integer"@,
        ValueKind::IntList => "IntList"@,
        ValueKind::Json => "Json"@,
        ValueKind::Model => "Model"@,
        ValueKind::Agent => "Agent"@,
        ValueKind::Tools => "Tools"@,
        ValueKind::Chat => "Chat"@,
        ValueKind::Message => "Message"@,
        ValueKind::MsgList => "MsgList"@,
    }
}

impl ValueKind {
    /// The name of the kind, as it is written.
    pub fn name(&self) -> (r: &'static str)
        ensures
            r@ == kind_name(*self),
    {
        match self {
            ValueKind::Placeholder => "Placeholder",
            ValueKind::Failure => "Failure",
            ValueKind::Text => "Text",
            ValueKind::TextList => "TextList",
            ValueKind::Number => "Number",
            ValueKind::FloatList => "FloatList",
            ValueKind::Integer => "Integer",
            ValueKind::IntList => "IntList",
            ValueKind::Json => "Json",
            ValueKind::Model => "Model",
            ValueKind::Agent => "Agent",
            ValueKind::Tools => "Tools",
            ValueKind::Chat => "Chat",
            ValueKind::Message => "Message",
            ValueKind::MsgList => "MsgList",
        }
    }
}

/// Names the kinds of a list: `[A, B]`.
pub open spec fn kinds_text_from(kinds: Seq<ValueKind>, n: int) -> Seq<char>
    decreases n,
{
    if n <= 0 {
        Seq::empty()
    } else if n == 1 {
        kind_name(kinds[0])
    } else {
        kinds_text_from(kinds, n - 1) + ", "@ + kind_name(kinds[n - 1])
    }
}

/// The text of a list of kinds: their names, in brackets.
pub open spec fn kinds_text(kinds: Seq<ValueKind>) -> Seq<char> {
    "["@ + kinds_text_from(kinds, kinds.len() as int) + "]"@
}

/// Writes the names of a list of kinds, in brackets.
pub fn write_kinds(kinds: &Vec<ValueKind>) -> (r: String)
    ensures
        r@ == kinds_text(kinds@),
{
    let mut body = String::new();
    let mut i: usize = 0;
    while i < kinds.len()
        invariant
            i <= kinds@.len(),
            body@ == kinds_text_from(kinds@, i as int),
        decreases kinds@.len() - i,
    {
        if i > 0 {
            body.append(", ");
        }
        body.append(kinds[i].name());
        i += 1;
    }
    let mut out = "[".to_owned();
    out.append(body.as_str());
    out.append("]");
    out
}

impl FlowValue {
    pub fn kind(&self) -> (r: ValueKind)
        ensures
            r == kind_of(*self),
    {
        match self {
            FlowValue::Placeholder(_) => ValueKind::Placeholder,
            FlowValue::Failure(_) => ValueKind::Failure,
            FlowValue::Text(_) => ValueKind::Text,
            FlowValue::TextList(_) => ValueKind::TextList,
            FlowValue::Number(_) => ValueKind::Number,
            FlowValue::FloatList(_) => ValueKind::FloatList,
            FlowValue::Integer(_) => ValueKind::Integer,
            FlowValue::IntList(_) => ValueKind::IntList,
            FlowValue::Json(_) => ValueKind::Json,
            FlowValue::Model(_) => ValueKind::Model,
            FlowValue::Agent(_) => ValueKind::Agent,
            FlowValue::Tools(_) => ValueKind::Tools,
            FlowValue::Chat(_) => ValueKind::Chat,
            FlowValue::Message(_) => ValueKind::Message,
            FlowValue::MsgList(_) => ValueKind::MsgList,
        }
    }

    /// A copy of the value; the payloads are shared.
    pub fn duplicate(&self) -> (r: FlowValue)
        ensures
            r == *self,
    {
        match self {
            FlowValue::Placeholder(k) => FlowValue::Placeholder(*k),
            FlowValue::Failure(e) => FlowValue::Failure(e.clone()),
            FlowValue::Text(t) => FlowValue::Text(t.clone()),
            FlowValue::TextList(t) => FlowValue::TextList(t.clone()),
            FlowValue::Number(n) => FlowValue::Number(*n),
            FlowValue::FloatList(t) => FlowValue::FloatList(t.clone()),
            FlowValue::Integer(n) => FlowValue::Integer(*n),
            FlowValue::IntList(t) => FlowValue::IntList(t.clone()),
            FlowValue::Json(j) => FlowValue::Json(j.clone()),
            FlowValue::Model(m) => FlowValue::Model(m.clone()),
            FlowValue::Agent(a) => FlowValue::Agent(a.clone()),
            FlowValue::Tools(t) => FlowValue::Tools(t.clone()),
            FlowValue::Chat(c) => FlowValue::Chat(c.clone()),
            FlowValue::Message(m) => FlowValue::Message(m.clone()),
            FlowValue::MsgList(t) => FlowValue::MsgList(t.clone()),
        }
    }

    pub fn is_placeholder(&self) -> (r: bool)
        ensures
            r == (*self is Placeholder),
    {
        match self {
            FlowValue::Placeholder(_) => true,
            _ => false,
        }
    }

    /// A text value.
    pub fn text(s: &str) -> (r: FlowValue)
        ensures
            r matches FlowValue::Text(t) && t@ == s@,
    {
        FlowValue::Text(Arc::new(s.to_owned()))
    }

    /// A list of texts.
    pub fn text_list(items: &[&str]) -> (r: FlowValue)
        ensures
            r matches FlowValue::TextList(t) && t@.len() == items@.len() && forall|i: int|
                0 <= i < items@.len() ==> #[trigger] t@[i]@ == items@[i]@,
    {
        let mut v: Vec<String> = Vec::new();
        let mut i: usize = 0;
        while i < items.len()
            invariant
                i <= items@.len(),
                v@.len() == i,
                forall|k: int| 0 <= k < i ==> #[trigger] v@[k]@ == items@[k]@,
            decreases items@.len() - i,
        {
            v.push(items[i].to_owned());
            i += 1;
        }
        FlowValue::TextList(Arc::new(v))
    }

    /// A list of integers.
    pub fn int_list(items: &[i64]) -> (r: FlowValue)
        ensures
            r matches FlowValue::IntList(t) && t@ == items@,
    {
        let mut v: Vec<i64> = Vec::new();
        let mut i: usize = 0;
        while i < items.len()
            invariant
                i <= items@.len(),
                v@ == items@.subrange(0, i as int),
            decreases items@.len() - i,
        {
            v.push(items[i]);
            i += 1;
        }
        assert(v@ == items@);
        FlowValue::IntList(Arc::new(v))
    }
}

impl Default for FlowValue {
    fn default() -> (r: Self)
        ensures
            r == FlowValue::Placeholder(ValueKind::Placeholder),
    {
        FlowValue::Placeholder(ValueKind::Placeholder)
    }
}

} // verus!

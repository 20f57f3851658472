//! Asking a model: the steps of a chat node and of a structured chat.
//!
//! A chat node sends a prompt after a conversation and adds the model's
//! messages to it. A structured chat asks the model, reads a tool call out of its answer,
//! checks the call's arguments against a schema, and asks again (telling the
//! model what went wrong) until it has valid data or runs out of attempts.
//! The requests themselves go out from the caller, which hands each answer
//! to [`StructuredRun::on_reply`].
use std::sync::Arc;
use vstd::prelude::*;

use crate::agent::AgentSpec;
use crate::chat::{appended, content_views, messages_of, conversation, ChatContent, ChatHistory, ContentView};
use crate::json::{json_empty_object, tool_call_of, tool_shape};
use crate::config::ToolSelector;
use crate::nodes::{owned_history, valid_inputs, ChatNode, InvokeTool, StructuredChat, WorkNode};
use crate::schema::{check_schema, schema_accepts, schema_builds, schema_compiles};
use crate::text::{replace_text, replaced};
use crate::utils::{extract_json, extract_tool_call, extracted, extracted_call};
use crate::values::{kind_of, FlowValue, WorkflowError};

verus! {

/// A tool call: the tool's name and its arguments.
#[derive(Debug, Clone, PartialEq)]
pub struct ToolCall {
    pub name: String,
    pub arguments: serde_json::Value,
}

/// A model's answer to one request.
#[derive(Debug, Clone, PartialEq)]
pub enum ModelReply {
    /// The answer: its message (as its JSON document), the message's text,
    /// and the tool calls it makes, in order.
    Answer { message: serde_json::Value, text: String, tool_calls: Vec<ToolCall> },
    /// The provider failed, with its report.
    Failed(String),
}

/// What a structured chat does after an answer.
#[derive(Debug, Clone, PartialEq)]
pub enum StructuredStep {
    /// Ask the model again with the conversation.
    Ask,
    /// Finished with this tool call.
    Done(ToolCall),
    /// Finished with an error.
    Failed(WorkflowError),
}

/// The prompt of a structured chat: a text to send as the user's message, or
/// a message as it is.
#[derive(Debug, Clone, PartialEq)]
pub enum PromptChoice {
    Text(String),
    Message(serde_json::Value),
}

/// A structured chat under way.
pub struct StructuredRun {
    /// The conversation so far, the prompt included.
    pub chat: ChatHistory,
    /// The schema the arguments must conform to, if any.
    pub schema: Option<Arc<serde_json::Value>>,
    /// The answers received so far.
    pub attempts: usize,
    /// The answer after which no more requests are made is the one past this
    /// count.
    pub max_attempts: usize,
    /// Whether to look for a tool call inside the text of an answer that
    /// makes none.
    pub extract: bool,
}

/// The report added to the conversation when the provider failed.
pub open spec fn provider_report() -> Seq<char> {
    "Error while invoking provider"@
}

/// The report added to the conversation when the answer made no tool call.
pub open spec fn missing_call_report() -> Seq<char> {
    "Expected a function call, but received none.\nPlease use one of the provided tools to submit your response."@
}

/// The report added to the conversation when the arguments do not conform
/// to the schema.
pub open spec fn invalid_report() -> Seq<char> {
    "Value does not conform to schema.\nPlease double check that your response has the correct structure and contains the required fields."@
}

/// A text with the names models commonly get wrong in a tool call put right:
/// `"tool"` and `"function"` become `"name"`, `"parameters"` becomes
/// `"arguments"`.
pub open spec fn corrected(t: Seq<char>) -> Seq<char> {
    replaced(
        replaced(replaced(t, "\"tool\""@, "\"name\""@), "\"function\""@, "\"name\""@),
        "\"parameters\""@,
        "\"arguments\""@,
    )
}

/// The tool call read from an answer: its first tool call; else, when
/// extracting, the first object in its text that reads as a call, then the
/// same in the corrected text, and, under a schema, any object in the
/// corrected text as the arguments of a call named `???`.
pub open spec fn found_call(calls: Seq<ToolCall>, text: Seq<char>, extract: bool, has_schema: bool) -> Option<
    (Seq<char>, serde_json::Value),
> {
    if calls.len() > 0 {
        Some((calls[0].name@, calls[0].arguments))
    } else if !extract {
        None
    } else {
        match extracted_call(text) {
            Some(v) => tool_shape(v),
            None => match extracted_call(corrected(text)) {
                Some(v) => tool_shape(v),
                None => if has_schema {
                    match extracted(corrected(text), false) {
                        Some(v) => Some(("???"@, v)),
                        None => None,
                    }
                } else {
                    None
                },
            },
        }
    }
}

/// What an answer leads to, given the run before it: `added` is what joins
/// the conversation and `r` the step. The answer past the last allowed one
/// ends the run with its error; before that a failure is reported to the
/// model and asked again. A call whose arguments conform (or any call, with
/// no schema) ends the run.
pub open spec fn reply_holds(run: StructuredRun, reply: ModelReply, added: Seq<ContentView>, r: StructuredStep) -> bool {
    let last = run.attempts + 1 > run.max_attempts;
    match reply {
        ModelReply::Failed(e) => if last {
            added.len() == 0 && r == StructuredStep::Failed(WorkflowError::Provider(e))
        } else {
            added == seq![ContentView::Error(provider_report())] && r is Ask
        },
        ModelReply::Answer { message, text, tool_calls } => {
            let said = ContentView::Message(message);
            match found_call(tool_calls@, text@, run.extract, run.schema is Some) {
                Some((name, args)) => if (run.schema matches Some(s) && !schema_accepts(*s, args)) {
                    if last {
                        added == seq![said] && (r matches StructuredStep::Failed(WorkflowError::Validation(_)))
                    } else {
                        added == seq![said, ContentView::Error(invalid_report())] && r is Ask
                    }
                } else {
                    added == seq![said] && (r matches StructuredStep::Done(c) && c.name@ == name && c.arguments
                        == args)
                },
                None => if last {
                    added == seq![said] && r == StructuredStep::Failed(WorkflowError::MissingToolCall)
                } else {
                    added == seq![said, ContentView::Error(missing_call_report())] && r is Ask
                },
            }
        },
    }
}

/// Puts right the names models commonly get wrong in a tool call.
fn correct_names(text: &str) -> (r: String)
    ensures
        r@ == corrected(text@),
{
    proof {
        reveal_strlit("\"tool\"");
        reveal_strlit("\"function\"");
        reveal_strlit("\"parameters\"");
    }
    let a = replace_text(text, "\"tool\"", "\"name\"");
    let b = replace_text(a.as_str(), "\"function\"", "\"name\"");
    replace_text(b.as_str(), "\"parameters\"", "\"arguments\"")
}

/// Reads the tool call of an answer (see [`found_call`]).
pub fn find_call(calls: &Vec<ToolCall>, text: &str, extract: bool, has_schema: bool) -> (r: Option<
    (String, serde_json::Value),
>)
    ensures
        match found_call(calls@, text@, extract, has_schema) {
            Some((name, args)) => r matches Some((n, a)) && n@ == name && a == args,
            None => r is None,
        },
{
    if calls.len() > 0 {
        return Some((calls[0].name.clone(), calls[0].arguments.clone()));
    }
    if !extract {
        return None;
    }
    match extract_tool_call(text) {
        Some(v) => {
            return tool_call_of(&v);
        },
        None => {},
    }
    let fixed = correct_names(text);
    match extract_tool_call(fixed.as_str()) {
        Some(v) => {
            return tool_call_of(&v);
        },
        None => {},
    }
    if has_schema {
        match extract_json(fixed.as_str(), false) {
            Some(v) => Some(("???".to_owned(), v)),
            None => None,
        }
    } else {
        None
    }
}

impl StructuredRun {
    /// Whether the run's schema, if it has one, compiles.
    pub open spec fn schema_ok(self) -> bool {
        self.schema matches Some(s) ==> schema_compiles(*s)
    }

    /// Checks that the run's schema, if it has one, compiles.
    pub fn schema_usable(&self) -> (r: bool)
        ensures
            r == self.schema_ok(),
    {
        match &self.schema {
            Some(s) => schema_builds(&**s),
            None => true,
        }
    }

    /// Adds contents to the current branch of the conversation.
    fn add(&mut self, contents: Vec<ChatContent>)
        ensures
            final(self).schema == old(self).schema,
            final(self).attempts == old(self).attempts,
            final(self).max_attempts == old(self).max_attempts,
            final(self).extract == old(self).extract,
            exists|ids: Seq<u128>|
                ids.len() == contents@.len() && final(self).chat@ == appended(
                    old(self).chat@,
                    old(self).chat@.head,
                    content_views(contents@),
                    ids,
                ),
    {
        let grown = match self.chat.extend(contents, None) {
            Ok(h) => owned_history(h),
            Err(_) => {
                proof {
                    assert(false);
                }
                vstd::pervasive::unreached()
            },
        };
        self.chat = grown;
    }

    /// The next request: the conversation's messages before the last, and
    /// the last as the prompt; none when the conversation has no message.
    pub fn request(&self) -> (r: Option<(Vec<serde_json::Value>, serde_json::Value)>)
        ensures
            ({
                let msgs = messages_of(conversation(self.chat@));
                match r {
                    None => msgs.len() == 0,
                    Some((history, prompt)) => msgs.len() > 0 && history@ == msgs.drop_last() && prompt
                        == msgs.last(),
                }
            }),
    {
        let msgs = self.chat.iter_msgs();
        let ghost all = messages_of(conversation(self.chat@));
        proof {
            assert(msgs@.len() == all.len());
        }
        if msgs.len() == 0 {
            return None;
        }
        let n = msgs.len() - 1;
        let mut history: Vec<serde_json::Value> = Vec::new();
        let mut i: usize = 0;
        while i < n
            invariant
                i <= n,
                n + 1 == msgs@.len(),
                msgs@.map_values(|m: &serde_json::Value| *m) == all,
                history@ == all.take(i as int),
            decreases n - i,
        {
            history.push(msgs[i].clone());
            proof {
                assert(*msgs@[i as int] == all[i as int]);
                assert(history@ =~= all.take(i as int + 1));
            }
            i += 1;
        }
        proof {
            assert(*msgs@[n as int] == all[n as int]);
            assert(all.take(n as int) =~= all.drop_last());
        }
        Some((history, msgs[n].clone()))
    }

    /// Takes in the model's answer to the last request: counts it, adds to the
    /// conversation what it leads to, and says what comes next (see
    /// [`reply_holds`]).
    pub fn on_reply(&mut self, reply: ModelReply) -> (r: StructuredStep)
        requires
            old(self).attempts < usize::MAX,
            old(self).schema_ok(),
        ensures
            final(self).attempts == old(self).attempts + 1,
            final(self).schema == old(self).schema,
            final(self).max_attempts == old(self).max_attempts,
            final(self).extract == old(self).extract,
            exists|added: Seq<ContentView>, ids: Seq<u128>|
                ids.len() == added.len() && final(self).chat@ == appended(
                    old(self).chat@,
                    old(self).chat@.head,
                    added,
                    ids,
                ) && reply_holds(*old(self), reply, added, r),
    {
        let ghost before = *self;
        let ghost given = reply;
        self.attempts = self.attempts + 1;
        let last = self.attempts > self.max_attempts;
        let mut added: Vec<ChatContent> = Vec::new();
        let step = match reply {
            ModelReply::Failed(e) => {
                if last {
                    StructuredStep::Failed(WorkflowError::Provider(e))
                } else {
                    added.push(ChatContent::Error("Error while invoking provider".to_owned()));
                    assert(content_views(added@) =~= seq![ContentView::Error(provider_report())]);
                    StructuredStep::Ask
                }
            },
            ModelReply::Answer { message, text, tool_calls } => {
                let found = find_call(&tool_calls, text.as_str(), self.extract, self.schema.is_some());
                let ghost said = ContentView::Message(message);
                added.push(ChatContent::Message(message));
                assert(content_views(added@) =~= seq![said]);
                match found {
                    Some((name, args)) => {
                        let invalid = match &self.schema {
                            Some(s) => match check_schema(&**s, &args) {
                                Ok(()) => None,
                                Err(e) => Some(e),
                            },
                            None => None,
                        };
                        match invalid {
                            Some(e) => {
                                if last {
                                    StructuredStep::Failed(WorkflowError::Validation(e))
                                } else {
                                    added.push(
                                        ChatContent::Error(
                                            "Value does not conform to schema.\nPlease double check that your response has the correct structure and contains the required fields.".to_owned(),
                                        ),
                                    );
                                    assert(content_views(added@) =~= seq![said, ContentView::Error(invalid_report())]);
                                    StructuredStep::Ask
                                }
                            },
                            None => StructuredStep::Done(ToolCall { name, arguments: args }),
                        }
                    },
                    None => {
                        if last {
                            StructuredStep::Failed(WorkflowError::MissingToolCall)
                        } else {
                            added.push(
                                ChatContent::Error(
                                    "Expected a function call, but received none.\nPlease use one of the provided tools to submit your response.".to_owned(),
                                ),
                            );
                            assert(content_views(added@) =~= seq![said, ContentView::Error(missing_call_report())]);
                            StructuredStep::Ask
                        }
                    },
                }
            },
        };
        let ghost cv = content_views(added@);
        self.add(added);
        proof {
            assert(reply_holds(before, given, cv, step));
        }
        step
    }

    /// Takes in an answer when the run's schema compiles; `None`, with the
    /// run unchanged, when it does not.
    pub fn on_reply_checked(&mut self, reply: ModelReply) -> (r: Option<StructuredStep>)
        requires
            old(self).attempts < usize::MAX,
        ensures
            r is None <==> !old(self).schema_ok(),
            r is None ==> final(self).chat@ == old(self).chat@ && final(self).attempts == old(self).attempts,
            r matches Some(step) ==> final(self).attempts == old(self).attempts + 1 && exists|
                added: Seq<ContentView>,
                ids: Seq<u128>,
            |
                ids.len() == added.len() && final(self).chat@ == appended(
                    old(self).chat@,
                    old(self).chat@.head,
                    added,
                    ids,
                ) && reply_holds(*old(self), reply, added, step),
    {
        if !self.schema_usable() {
            return None;
        }
        Some(self.on_reply(reply))
    }
}

/// Whether a structured chat's inputs give a prompt: a text input that is
/// not empty, a message input, or no input and a prompt of its own.
pub open spec fn prompt_given(own: Seq<char>, input: Option<FlowValue>) -> bool {
    match input {
        Some(FlowValue::Text(t)) => t@.len() > 0,
        Some(FlowValue::Message(_)) => true,
        None => own.len() > 0,
        _ => false,
    }
}

/// Whether `r` is the prompt the inputs give.
pub open spec fn prompt_holds(own: Seq<char>, input: Option<FlowValue>, r: PromptChoice) -> bool {
    match input {
        Some(FlowValue::Text(t)) => r matches PromptChoice::Text(x) && x@ == t@,
        Some(FlowValue::Message(m)) => r matches PromptChoice::Message(v) && v == *m,
        _ => r matches PromptChoice::Text(x) && x@ == own,
    }
}

/// The agent a structured chat asks: the agent input, made to answer in the
/// schema input when there is one.
pub open spec fn agent_with_schema(agent: AgentSpec, schema: Option<FlowValue>) -> AgentSpec {
    match schema {
        Some(FlowValue::Json(s)) => AgentSpec { schema: Some(s), ..agent },
        _ => agent,
    }
}

/// The schema input of a structured chat, if any.
pub open spec fn schema_input(schema: Option<FlowValue>) -> Option<Arc<serde_json::Value>> {
    match schema {
        Some(FlowValue::Json(s)) => Some(s),
        _ => None,
    }
}

impl StructuredChat {
    /// Checks the inputs (agent, conversation, schema, prompt) and gives the
    /// agent to ask and the prompt. Each missing part is reported in turn:
    /// the agent, the conversation, then the prompt.
    pub fn prepare(&self, inputs: &Vec<Option<FlowValue>>) -> (r: Result<(Arc<AgentSpec>, PromptChoice), WorkflowError>)
        ensures
            !valid_inputs(WorkNode::Structured(*self), inputs@) ==> r matches Err(WorkflowError::Required(_)),
            valid_inputs(WorkNode::Structured(*self), inputs@) ==> match (inputs@[0], inputs@[1]) {
                (Some(FlowValue::Agent(a)), Some(FlowValue::Chat(_))) => if prompt_given(self.prompt@, inputs@[3]) {
                    r matches Ok((spec, p)) && *spec == agent_with_schema(*a, inputs@[2]) && prompt_holds(
                        self.prompt@,
                        inputs@[3],
                        p,
                    )
                } else {
                    r matches Err(WorkflowError::Required(m)) && m@.len() == 1 && m@[0]@ == "A prompt is required"@
                },
                (Some(_), _) => r matches Err(WorkflowError::Required(m)) && m@.len() == 1 && m@[0]@
                    == "Chat history required"@,
                _ => r matches Err(WorkflowError::Required(m)) && m@.len() == 1 && m@[0]@ == "Agent is required"@,
            },
    {
        let shape = WorkNode::Structured(
            StructuredChat {
                prompt: String::new(),
                retries: 0,
                extract: false,
                history: Arc::new(ChatHistory::new()),
                tool_name: String::new(),
                data: Arc::new(json_empty_object()),
            },
        );
        match shape.validate(inputs) {
            Ok(()) => {},
            Err(e) => {
                return Err(e);
            },
        }
        assert(valid_inputs(WorkNode::Structured(*self), inputs@));
        let agent = match &inputs[0] {
            Some(FlowValue::Agent(a)) => a,
            None => {
                return Err(WorkflowError::Required(vec!["Agent is required".to_owned()]));
            },
            Some(v) => {
                proof {
                    assert(WorkNode::Structured(*self).kinds_at(0).contains(kind_of(*v)));
                }
                vstd::pervasive::unreached()
            },
        };
        match &inputs[1] {
            Some(FlowValue::Chat(_)) => {},
            None => {
                return Err(WorkflowError::Required(vec!["Chat history required".to_owned()]));
            },
            Some(v) => {
                proof {
                    assert(WorkNode::Structured(*self).kinds_at(1).contains(kind_of(*v)));
                }
                vstd::pervasive::unreached()
            },
        }
        let prompt = match &inputs[3] {
            Some(FlowValue::Text(t)) => {
                if t.as_str().unicode_len() == 0 {
                    return Err(WorkflowError::Required(vec!["A prompt is required".to_owned()]));
                }
                PromptChoice::Text((**t).clone())
            },
            Some(FlowValue::Message(m)) => PromptChoice::Message((**m).clone()),
            None => {
                if self.prompt.as_str().unicode_len() == 0 {
                    return Err(WorkflowError::Required(vec!["A prompt is required".to_owned()]));
                }
                PromptChoice::Text(self.prompt.clone())
            },
            Some(v) => {
                proof {
                    assert(WorkNode::Structured(*self).kinds_at(3).contains(kind_of(*v)));
                }
                vstd::pervasive::unreached()
            },
        };
        let spec = match &inputs[2] {
            Some(FlowValue::Json(s)) => Arc::new(agent.duplicate().with_schema(s.clone())),
            _ => agent.clone(),
        };
        Ok((spec, prompt))
    }

    /// Starts a run: the conversation input with the prompt message added to
    /// its current branch, the schema input, no answers yet, and one more
    /// attempt allowed than the node's retries.
    pub fn begin(&self, inputs: &Vec<Option<FlowValue>>, prompt: serde_json::Value) -> (r: StructuredRun)
        requires
            inputs@.len() == 4,
            inputs@[1] matches Some(FlowValue::Chat(_)),
            self.retries < usize::MAX,
        ensures
            r.schema == schema_input(inputs@[2]),
            r.attempts == 0,
            r.max_attempts == self.retries + 1,
            r.extract == self.extract,
            inputs@[1] matches Some(FlowValue::Chat(c)) && exists|id: u128|
                r.chat@ == appended(c@, c@.head, seq![ContentView::Message(prompt)], seq![id]),
    {
        let chat = match &inputs[1] {
            Some(FlowValue::Chat(c)) => c,
            _ => vstd::pervasive::unreached(),
        };
        let mut first: Vec<ChatContent> = Vec::new();
        first.push(ChatContent::Message(prompt));
        let ghost cv = content_views(first@);
        assert(cv =~= seq![ContentView::Message(prompt)]);
        let grown = match chat.extend(first, None) {
            Ok(h) => owned_history(h),
            Err(_) => {
                proof {
                    assert(false);
                }
                vstd::pervasive::unreached()
            },
        };
        proof {
            let ids = choose|ids: Seq<u128>| ids.len() == 1 && grown@ == appended(chat@, chat@.head, cv, ids);
            assert(ids =~= seq![ids[0]]);
        }
        let schema = match &inputs[2] {
            Some(FlowValue::Json(s)) => Some(s.clone()),
            _ => None,
        };
        StructuredRun {
            chat: grown,
            schema,
            attempts: 0,
            max_attempts: self.retries + 1,
            extract: self.extract,
        }
    }

    /// Ends a run: the node keeps the conversation, and, when the run found
    /// a tool call, its name and arguments. The outcome's error is passed on.
    pub fn finish(&mut self, run: StructuredRun, outcome: Result<ToolCall, WorkflowError>) -> (r: Result<(), WorkflowError>)
        ensures
            final(self).history@ == run.chat@,
            final(self).prompt == old(self).prompt,
            final(self).retries == old(self).retries,
            final(self).extract == old(self).extract,
            match outcome {
                Ok(c) => r is Ok && final(self).tool_name@ == c.name@ && *final(self).data == c.arguments,
                Err(e) => r == Err::<(), WorkflowError>(e) && final(self).tool_name == old(self).tool_name
                    && final(self).data == old(self).data,
            },
    {
        self.history = Arc::new(run.chat);
        match outcome {
            Ok(c) => {
                self.tool_name = c.name;
                self.data = Arc::new(c.arguments);
                Ok(())
            },
            Err(e) => Err(e),
        }
    }
}

/// A run never asks past its last allowed answer: the answer after
/// `max_attempts` ends it, with a tool call or an error.
pub proof fn law_structured_run_ends(run: StructuredRun, reply: ModelReply, added: Seq<ContentView>, r: StructuredStep)
    requires
        reply_holds(run, reply, added, r),
        run.attempts + 1 > run.max_attempts,
    ensures
        !(r is Ask),
{
}

/// Every answer that is not final adds the model's message (or the
/// provider's failure) and a report of what went wrong, and asks again.
pub proof fn law_structured_retry_reports(run: StructuredRun, reply: ModelReply, added: Seq<ContentView>, r: StructuredStep)
    requires
        reply_holds(run, reply, added, r),
        r is Ask,
    ensures
        run.attempts + 1 <= run.max_attempts,
        added.len() >= 1,
        added.last() is Error,
{
}

/// Whether a chat node's inputs give a prompt: a text input that is not
/// empty, a message input, or no input and a prompt of its own.
pub open spec fn chat_prompt_given(own: Seq<char>, input: Option<FlowValue>) -> bool {
    prompt_given(own, input)
}

/// Whether `r` is the prompt a chat node's inputs give: a user's message is
/// sent as it is, another's (the model's) as a user's message of its text.
pub open spec fn chat_prompt_holds(
    own: Seq<char>,
    input: Option<FlowValue>,
    message_is_user: bool,
    message_text: Seq<char>,
    r: PromptChoice,
) -> bool {
    match input {
        Some(FlowValue::Message(m)) => if message_is_user {
            r matches PromptChoice::Message(v) && v == *m
        } else {
            r matches PromptChoice::Text(x) && x@ == message_text
        },
        _ => prompt_holds(own, input, r),
    }
}

/// The messages of a reply as contents of a conversation.
pub open spec fn message_contents(msgs: Seq<serde_json::Value>) -> Seq<ContentView> {
    msgs.map_values(|m: serde_json::Value| ContentView::Message(m))
}

impl ChatNode {
    /// Checks the inputs (agent, conversation, prompt) and gives the agent to
    /// ask and the prompt; for a message input, `message_is_user` says whether
    /// it is the user's and `message_text` is its text. Each missing part is
    /// reported in turn: the agent, the conversation, then the prompt.
    pub fn prepare(&self, inputs: &Vec<Option<FlowValue>>, message_is_user: bool, message_text: &str) -> (r: Result<
        (Arc<AgentSpec>, PromptChoice),
        WorkflowError,
    >)
        ensures
            !valid_inputs(WorkNode::Chat(*self), inputs@) ==> r matches Err(WorkflowError::Required(_)),
            valid_inputs(WorkNode::Chat(*self), inputs@) ==> match (inputs@[0], inputs@[1]) {
                (Some(FlowValue::Agent(a)), Some(FlowValue::Chat(_))) => if chat_prompt_given(self.prompt@, inputs@[2]) {
                    r matches Ok((spec, p)) && spec == a && chat_prompt_holds(
                        self.prompt@,
                        inputs@[2],
                        message_is_user,
                        message_text@,
                        p,
                    )
                } else {
                    r matches Err(WorkflowError::Required(m)) && m@.len() == 1 && m@[0]@ == "A prompt is required"@
                },
                (Some(_), _) => r matches Err(WorkflowError::Required(m)) && m@.len() == 1 && m@[0]@
                    == "Chat history required"@,
                _ => r matches Err(WorkflowError::Required(m)) && m@.len() == 1 && m@[0]@ == "Agent spec required"@,
            },
    {
        let shape = WorkNode::Chat(ChatNode { prompt: String::new(), history: Arc::new(ChatHistory::new()) });
        match shape.validate(inputs) {
            Ok(()) => {},
            Err(e) => {
                return Err(e);
            },
        }
        assert(valid_inputs(WorkNode::Chat(*self), inputs@));
        let agent = match &inputs[0] {
            Some(FlowValue::Agent(a)) => a.clone(),
            None => {
                return Err(WorkflowError::Required(vec!["Agent spec required".to_owned()]));
            },
            Some(v) => {
                proof {
                    assert(WorkNode::Chat(*self).kinds_at(0).contains(kind_of(*v)));
                }
                vstd::pervasive::unreached()
            },
        };
        match &inputs[1] {
            Some(FlowValue::Chat(_)) => {},
            None => {
                return Err(WorkflowError::Required(vec!["Chat history required".to_owned()]));
            },
            Some(v) => {
                proof {
                    assert(WorkNode::Chat(*self).kinds_at(1).contains(kind_of(*v)));
                }
                vstd::pervasive::unreached()
            },
        }
        let prompt = match &inputs[2] {
            Some(FlowValue::Text(t)) => {
                if t.as_str().unicode_len() == 0 {
                    return Err(WorkflowError::Required(vec!["A prompt is required".to_owned()]));
                }
                PromptChoice::Text((**t).clone())
            },
            Some(FlowValue::Message(m)) => if message_is_user {
                PromptChoice::Message((**m).clone())
            } else {
                PromptChoice::Text(message_text.to_owned())
            },
            None => {
                if self.prompt.as_str().unicode_len() == 0 {
                    return Err(WorkflowError::Required(vec!["A prompt is required".to_owned()]));
                }
                PromptChoice::Text(self.prompt.clone())
            },
            Some(v) => {
                proof {
                    assert(WorkNode::Chat(*self).kinds_at(2).contains(kind_of(*v)));
                }
                vstd::pervasive::unreached()
            },
        };
        Ok((agent, prompt))
    }

    /// Keeps the conversation with the messages of the model's reply (the
    /// prompt first) added to its current branch, in order.
    pub fn record(&mut self, chat: &ChatHistory, replies: Vec<serde_json::Value>)
        ensures
            final(self).prompt == old(self).prompt,
            exists|ids: Seq<u128>|
                ids.len() == replies@.len() && final(self).history@ == appended(
                    chat@,
                    chat@.head,
                    message_contents(replies@),
                    ids,
                ),
    {
        let ghost msgs = replies@;
        let mut contents: Vec<ChatContent> = Vec::new();
        let mut i: usize = 0;
        let n = replies.len();
        let mut rest = replies;
        while i < n
            invariant
                i <= n,
                n == msgs.len(),
                rest@ == msgs.subrange(i as int, n as int),
                content_views(contents@) == message_contents(msgs.take(i as int)),
            decreases n - i,
        {
            let m = rest.remove(0);
            let ghost before = contents@;
            contents.push(ChatContent::Message(m));
            proof {
                assert(content_views(contents@) =~= content_views(before).push(ContentView::Message(m)));
                assert(msgs.take(i as int + 1) =~= msgs.take(i as int).push(m));
                assert(message_contents(msgs.take(i as int + 1)) =~= message_contents(msgs.take(i as int)).push(
                    ContentView::Message(m),
                ));
                assert(rest@ =~= msgs.subrange(i as int + 1, n as int));
            }
            i += 1;
        }
        proof {
            assert(msgs.take(n as int) =~= msgs);
        }
        let ghost cv = content_views(contents@);
        let grown = match chat.extend(contents, None) {
            Ok(h) => owned_history(h),
            Err(_) => {
                proof {
                    assert(false);
                }
                vstd::pervasive::unreached()
            },
        };
        self.history = Arc::new(grown);
    }
}

/// The tool a tool invocation calls: the name input; else the node's own
/// name when it has one; else the only tool of the toolset, when it has just
/// one.
pub open spec fn tool_to_call(own: Seq<char>, input: Option<FlowValue>, tools: Seq<String>) -> Option<Seq<char>> {
    match input {
        Some(FlowValue::Text(t)) => Some(t@),
        _ => if own.len() > 0 {
            Some(own)
        } else if tools.len() == 1 {
            Some(tools[0]@)
        } else {
            None
        },
    }
}

impl InvokeTool {
    /// Checks the inputs (conversation, toolset, tool name, arguments) and
    /// gives the toolset, the tool to call and its arguments; `tools` are the
    /// names of the toolset's tools. Each missing part is reported in turn.
    pub fn prepare(&self, inputs: &Vec<Option<FlowValue>>, tools: &Vec<String>) -> (r: Result<
        (Arc<ToolSelector>, String, Arc<serde_json::Value>),
        WorkflowError,
    >)
        ensures
            !valid_inputs(WorkNode::InvokeTool(*self), inputs@) ==> r matches Err(WorkflowError::Required(_)),
            valid_inputs(WorkNode::InvokeTool(*self), inputs@) ==> match (inputs@[0], inputs@[1]) {
                (Some(FlowValue::Chat(_)), Some(FlowValue::Tools(set))) => match tool_to_call(
                    self.tool_name@,
                    inputs@[2],
                    tools@,
                ) {
                    Some(name) => match inputs@[3] {
                        Some(FlowValue::Json(args)) => r matches Ok((s, n, a)) && s == set && n@ == name && a == args,
                        _ => r matches Err(WorkflowError::Required(m)) && m@.len() == 1 && m@[0]@
                            == "Tool arguments are required"@,
                    },
                    None => r matches Err(WorkflowError::Required(m)) && m@.len() == 1 && m@[0]@ == "Tool name required"@,
                },
                (Some(_), _) => r matches Err(WorkflowError::Required(m)) && m@.len() == 1 && m@[0]@
                    == "Toolset is required"@,
                _ => r matches Err(WorkflowError::Required(m)) && m@.len() == 1 && m@[0]@ == "Chat history required"@,
            },
    {
        let shape = WorkNode::InvokeTool(
            InvokeTool { tool_name: String::new(), history: Arc::new(ChatHistory::new()), tool_output: String::new() },
        );
        match shape.validate(inputs) {
            Ok(()) => {},
            Err(e) => {
                return Err(e);
            },
        }
        assert(valid_inputs(WorkNode::InvokeTool(*self), inputs@));
        match &inputs[0] {
            Some(FlowValue::Chat(_)) => {},
            None => {
                return Err(WorkflowError::Required(vec!["Chat history required".to_owned()]));
            },
            Some(v) => {
                proof {
                    assert(WorkNode::InvokeTool(*self).kinds_at(0).contains(kind_of(*v)));
                }
                vstd::pervasive::unreached()
            },
        }
        let toolset = match &inputs[1] {
            Some(FlowValue::Tools(set)) => set.clone(),
            None => {
                return Err(WorkflowError::Required(vec!["Toolset is required".to_owned()]));
            },
            Some(v) => {
                proof {
                    assert(WorkNode::InvokeTool(*self).kinds_at(1).contains(kind_of(*v)));
                }
                vstd::pervasive::unreached()
            },
        };
        let name = match &inputs[2] {
            Some(FlowValue::Text(t)) => (**t).clone(),
            None => {
                if self.tool_name.as_str().unicode_len() > 0 {
                    self.tool_name.clone()
                } else if tools.len() == 1 {
                    tools[0].clone()
                } else {
                    return Err(WorkflowError::Required(vec!["Tool name required".to_owned()]));
                }
            },
            Some(v) => {
                proof {
                    assert(WorkNode::InvokeTool(*self).kinds_at(2).contains(kind_of(*v)));
                }
                vstd::pervasive::unreached()
            },
        };
        let args = match &inputs[3] {
            Some(FlowValue::Json(a)) => a.clone(),
            None => {
                return Err(WorkflowError::Required(vec!["Tool arguments are required".to_owned()]));
            },
            Some(v) => {
                proof {
                    assert(WorkNode::InvokeTool(*self).kinds_at(3).contains(kind_of(*v)));
                }
                vstd::pervasive::unreached()
            },
        };
        Ok((toolset, name, args))
    }

    /// Keeps the conversation with the tool's result message added to its
    /// current branch, and the tool's output.
    pub fn record(&mut self, chat: &ChatHistory, result_message: serde_json::Value, output: String)
        ensures
            final(self).tool_name == old(self).tool_name,
            final(self).tool_output == output,
            exists|id: u128|
                final(self).history@ == appended(
                    chat@,
                    chat@.head,
                    seq![ContentView::Message(result_message)],
                    seq![id],
                ),
    {
        let mut contents: Vec<ChatContent> = Vec::new();
        contents.push(ChatContent::Message(result_message));
        let ghost cv = content_views(contents@);
        assert(cv =~= seq![ContentView::Message(result_message)]);
        let grown = match chat.extend(contents, None) {
            Ok(h) => owned_history(h),
            Err(_) => {
                proof {
                    assert(false);
                }
                vstd::pervasive::unreached()
            },
        };
        proof {
            let ids = choose|ids: Seq<u128>| ids.len() == 1 && grown@ == appended(chat@, chat@.head, cv, ids);
            assert(ids =~= seq![ids[0]]);
        }
        self.history = Arc::new(grown);
        self.tool_output = output;
    }
}

} // verus!

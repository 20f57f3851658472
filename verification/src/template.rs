//! Rendering templates: the template node.
use std::sync::Arc;
use vstd::prelude::*;

use crate::agent::Transmuter;
use crate::chat::{conversation, messages_of, ChatHistory};
use crate::json::{
    json_array, json_array_items, json_field, json_from_int, json_from_text, json_int, json_is_object,
    json_is_object_doc, json_object, json_string, keys_distinct,
};
use crate::nodes::{valid_inputs, TemplateNode, WorkNode};
use crate::values::{kind_of, FlowValue, WorkflowError};

verus! {

/// What `minijinja::Environment::render_str` gives for a template, rendered
/// with `vars` as its context in an environment that has the default
/// filters and globals and, under the name `global`, `vars` again: the text,
/// or nothing when the template does not parse or render.
pub uninterp spec fn template_rendered(template: Seq<char>, global: Seq<char>, vars: serde_json::Value) -> Option<
    Seq<char>,
>;

/// `minijinja::Environment::render_str` in a new environment
/// (`Environment::new`) with `vars` added as a global (`add_global` of
/// `Value::from_serialize`). The error is minijinja's debug text, which is
/// not stated.
#[verifier::external_body]
fn render_with_global(template: &str, global: &str, vars: &serde_json::Value) -> (r: Result<String, String>)
    ensures
        match template_rendered(template@, global@, *vars) {
            Some(t) => r matches Ok(s) && s@ == t,
            None => r is Err,
        },
{
    let mut env = minijinja::Environment::new();
    env.add_global(global.to_owned(), minijinja::Value::from_serialize(vars));
    env.render_str(template, vars).map_err(|e| format!("{e:?}"))
}

/// What `minijinja::Environment::render_str` gives for a template rendered
/// with `vars` as its context in a new environment (default filters and
/// globals): the text, or nothing when the template does not parse or
/// render.
pub uninterp spec fn template_rendered_plain(template: Seq<char>, vars: serde_json::Value) -> Option<Seq<char>>;

/// `minijinja::Environment::render_str` in a new environment
/// (`Environment::new`). The error is minijinja's debug text, which is not
/// stated.
#[verifier::external_body]
pub(crate) fn render_plain(template: &str, vars: &serde_json::Value) -> (r: Result<String, String>)
    ensures
        match template_rendered_plain(template@, *vars) {
            Some(t) => r matches Ok(s) && s@ == t,
            None => r is Err,
        },
{
    minijinja::Environment::new().render_str(template, vars).map_err(|e| format!("{e:?}"))
}

/// The name under which a template sees its variables as a whole.
pub open spec fn context_name() -> Seq<char> {
    "CONTEXT"@
}

impl Transmuter {
    /// Renders a template with the variables as its context; the variables
    /// are also the global `CONTEXT`.
    pub fn render_template(&self, template: &str, vars: &serde_json::Value) -> (r: Result<String, String>)
        ensures
            match template_rendered(template@, context_name(), *vars) {
                Some(t) => r matches Ok(s) && s@ == t,
                None => r is Err,
            },
    {
        render_with_global(template, "CONTEXT", vars)
    }
}

/// Whether `x` records a message: its author (`User` for the user's
/// messages, else `Assistant`) and its text.
pub open spec fn message_record(x: serde_json::Value, fact: (bool, String)) -> bool {
    &&& json_field(x, "author"@) matches Some(a) && json_string(a) == Some(
        if fact.0 {
            "User"@
        } else {
            "Assistant"@
        },
    )
    &&& json_field(x, "content"@) matches Some(c) && json_string(c) == Some(fact.1@)
}

/// Whether `x` is the array of the records of messages with these facts.
pub open spec fn message_records(x: serde_json::Value, facts: Seq<(bool, String)>) -> bool {
    json_array_items(x) matches Some(items) && items.len() == facts.len() && forall|k: int|
        0 <= k < items.len() ==> message_record(#[trigger] items[k], facts[k])
}

/// Whether the messages of an input and the facts given for them (whether
/// each is the user's, and its text) line up one for one.
pub open spec fn facts_fit(input: FlowValue, facts: Seq<(bool, String)>) -> bool {
    match input {
        FlowValue::Message(_) => facts.len() == 1,
        FlowValue::MsgList(l) => facts.len() == l@.len(),
        FlowValue::Chat(c) => facts.len() == messages_of(conversation(c@)).len(),
        _ => true,
    }
}

/// Whether `vars` are the variables a template gets from its input: a JSON
/// object as it is; anything else under the name `value`: a document as it
/// is, numbers and texts (and lists of them) as JSON, messages (of a list or
/// a conversation) as records of their author and text. `float_json` is the
/// JSON of a number input or of a list of numbers.
pub open spec fn vars_hold(
    input: FlowValue,
    float_json: serde_json::Value,
    facts: Seq<(bool, String)>,
    vars: serde_json::Value,
) -> bool {
    match input {
        FlowValue::Json(j) => if json_is_object_doc(*j) {
            vars == *j
        } else {
            json_field(vars, "value"@) == Some(*j)
        },
        _ => json_field(vars, "value"@) matches Some(x) && match input {
            FlowValue::Number(_) => x == float_json,
            FlowValue::FloatList(_) => x == float_json,
            FlowValue::Integer(n) => x == json_int(n as int),
            FlowValue::Text(t) => json_string(x) == Some(t@),
            FlowValue::IntList(l) => json_array_items(x) == Some(l@.map_values(|n: i64| json_int(n as int))),
            FlowValue::TextList(l) => json_array_items(x) matches Some(items) && items.len() == l@.len()
                && forall|k: int| 0 <= k < items.len() ==> json_string(#[trigger] items[k]) == Some(l@[k]@),
            FlowValue::Message(_) => message_record(x, facts[0]),
            _ => message_records(x, facts),
        },
    }
}

/// The object `{"value": x}`.
fn wrap_value(x: serde_json::Value) -> (r: serde_json::Value)
    ensures
        json_field(r, "value"@) == Some(x),
{
    let mut members: Vec<(String, serde_json::Value)> = Vec::new();
    members.push(("value".to_owned(), x));
    assert(keys_distinct(members@));
    let r = json_object(members);
    assert(members@[0].0@ == "value"@);
    r
}

/// The record of a message: its author and its text.
fn record_message(fact: &(bool, String)) -> (r: serde_json::Value)
    ensures
        message_record(r, *fact),
{
    let author = if fact.0 {
        "User"
    } else {
        "Assistant"
    };
    let mut members: Vec<(String, serde_json::Value)> = Vec::new();
    members.push(("author".to_owned(), json_from_text(author)));
    members.push(("content".to_owned(), json_from_text(fact.1.as_str())));
    proof {
        reveal_strlit("author");
        reveal_strlit("content");
        assert(members@[0].0@.len() == 6);
        assert(members@[1].0@.len() == 7);
    }
    let r = json_object(members);
    assert(members@[0].0@ == "author"@);
    assert(members@[1].0@ == "content"@);
    r
}

/// The array of the records of messages.
fn record_messages(facts: &Vec<(bool, String)>) -> (r: serde_json::Value)
    ensures
        message_records(r, facts@),
{
    let mut items: Vec<serde_json::Value> = Vec::new();
    let mut i: usize = 0;
    while i < facts.len()
        invariant
            i <= facts@.len(),
            items@.len() == i,
            forall|k: int| 0 <= k < i ==> message_record(#[trigger] items@[k], facts@[k]),
        decreases facts@.len() - i,
    {
        items.push(record_message(&facts[i]));
        i += 1;
    }
    json_array(items)
}

/// The variables a template gets from its input (see [`vars_hold`]).
pub fn template_vars(input: &FlowValue, float_json: &serde_json::Value, facts: &Vec<(bool, String)>) -> (r: serde_json::Value)
    requires
        facts_fit(*input, facts@),
    ensures
        vars_hold(*input, *float_json, facts@, r),
{
    match input {
        FlowValue::Json(j) => {
            if json_is_object(&**j) {
                (**j).clone()
            } else {
                wrap_value((**j).clone())
            }
        },
        FlowValue::Number(_) => wrap_value(float_json.clone()),
        FlowValue::FloatList(_) => wrap_value(float_json.clone()),
        FlowValue::Integer(n) => wrap_value(json_from_int(*n)),
        FlowValue::Text(t) => wrap_value(json_from_text(t.as_str())),
        FlowValue::IntList(l) => {
            let mut items: Vec<serde_json::Value> = Vec::new();
            let mut i: usize = 0;
            while i < l.len()
                invariant
                    i <= l@.len(),
                    items@ == l@.take(i as int).map_values(|n: i64| json_int(n as int)),
                decreases l@.len() - i,
            {
                items.push(json_from_int(l[i]));
                proof {
                    assert(l@.take(i as int + 1) =~= l@.take(i as int).push(l@[i as int]));
                    assert(items@ =~= l@.take(i as int + 1).map_values(|n: i64| json_int(n as int)));
                }
                i += 1;
            }
            assert(l@.take(l@.len() as int) =~= l@);
            wrap_value(json_array(items))
        },
        FlowValue::TextList(l) => {
            let mut items: Vec<serde_json::Value> = Vec::new();
            let mut i: usize = 0;
            while i < l.len()
                invariant
                    i <= l@.len(),
                    items@.len() == i,
                    forall|k: int| 0 <= k < i ==> json_string(#[trigger] items@[k]) == Some(l@[k]@),
                decreases l@.len() - i,
            {
                items.push(json_from_text(l[i].as_str()));
                i += 1;
            }
            wrap_value(json_array(items))
        },
        FlowValue::Message(_) => wrap_value(record_message(&facts[0])),
        _ => wrap_value(record_messages(facts)),
    }
}

impl TemplateNode {
    /// Renders the template (its first input, or the node's own) with the
    /// variables of its second input (see [`template_vars`]).
    pub fn execute(
        &self,
        inputs: &Vec<Option<FlowValue>>,
        float_json: &serde_json::Value,
        facts: &Vec<(bool, String)>,
    ) -> (r: Result<Vec<FlowValue>, WorkflowError>)
        requires
            inputs@.len() == 2 ==> (inputs@[1] matches Some(v) ==> facts_fit(v, facts@)),
        ensures
            !valid_inputs(WorkNode::Template(*self), inputs@) ==> r matches Err(WorkflowError::Required(_)),
            valid_inputs(WorkNode::Template(*self), inputs@) ==> match inputs@[1] {
                None => r matches Err(WorkflowError::Required(m)) && m@.len() == 1 && m@[0]@ == "JSON input required"@,
                Some(v) => {
                    let template = match inputs@[0] {
                        Some(FlowValue::Text(t)) => t@,
                        _ => self.template@,
                    };
                    exists|vars: serde_json::Value|
                        vars_hold(v, *float_json, facts@, vars) && match template_rendered(template, context_name(), vars) {
                            Some(text) => r matches Ok(out) && out@.len() == 1 && (out@[0] matches FlowValue::Text(t)
                                && t@ == text),
                            None => r matches Err(WorkflowError::Unknown(_)),
                        }
                },
            },
    {
        let shape = WorkNode::Template(TemplateNode { template: String::new() });
        match shape.validate(inputs) {
            Ok(()) => {},
            Err(e) => {
                return Err(e);
            },
        }
        assert(valid_inputs(WorkNode::Template(*self), inputs@));
        let template: &str = match &inputs[0] {
            Some(FlowValue::Text(t)) => t.as_str(),
            _ => self.template.as_str(),
        };
        let vars = match &inputs[1] {
            Some(v) => template_vars(v, float_json, facts),
            None => {
                return Err(WorkflowError::Required(vec!["JSON input required".to_owned()]));
            },
        };
        let t = Transmuter {};
        match t.render_template(template, &vars) {
            Ok(text) => Ok(vec![FlowValue::Text(Arc::new(text))]),
            Err(e) => {
                let mut msg = "anyhow... ".to_owned();
                msg.append(e.as_str());
                Err(WorkflowError::Unknown(msg))
            },
        }
    }
}

} // verus!

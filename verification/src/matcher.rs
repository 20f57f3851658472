//! Routing a value by a key: the match node.
use vstd::prelude::*;

use crate::chat::same_text;
use crate::config::copy_texts;
use crate::json::{json_as_text, json_is_number, json_number, json_string};
use crate::nodes::{valid_inputs, Matcher, WorkNode};
use crate::text::{split_on, split_raw, texts_view, trim_text, trim_white};
use crate::utils::chars_of;
use crate::values::{kind_of, FlowValue, ValueKind, WorkflowError};

verus! {

#[verifier::external_type_specification]
#[verifier::external_body]
pub struct ExRegex(regex::Regex);

#[verifier::external_type_specification]
#[verifier::external_body]
pub struct ExRegexError(regex::Error);

/// Whether `regex::Regex::new` compiles a pattern (its syntax, and the
/// default size limit).
pub uninterp spec fn regex_valid(pattern: Seq<char>) -> bool;

/// The pattern a compiled regex was made from.
pub uninterp spec fn regex_text(re: regex::Regex) -> Seq<char>;

/// What `regex::Regex::is_match` says: whether the regex of a pattern
/// matches somewhere in a text.
pub uninterp spec fn regex_match(pattern: Seq<char>, text: Seq<char>) -> bool;

/// `regex::Regex::new`: compiles a pattern. It succeeds exactly on the
/// patterns that `regex_valid` names, and the regex keeps its pattern.
#[verifier::external_body]
fn compile_regex(pattern: &str) -> (r: Result<regex::Regex, regex::Error>)
    ensures
        r is Ok == regex_valid(pattern@),
        r matches Ok(re) ==> regex_text(re) == pattern@,
{
    regex::Regex::new(pattern)
}

/// `regex::Regex::is_match`: whether the regex matches somewhere in `text`.
#[verifier::external_body]
fn regex_is_match(re: &regex::Regex, text: &str) -> (r: bool)
    ensures
        r == regex_match(regex_text(*re), text@),
{
    re.is_match(text)
}

/// The report of a pattern that does not compile, as the run reports
/// errors of its helpers.
#[verifier::external_body]
fn regex_error_message(e: regex::Error) -> String {
    format!("anyhow... {:?}", anyhow::Error::from(e))
}

/// The report of a key that cannot be matched.
#[verifier::external_body]
fn unsupported_key_message(v: &serde_json::Value) -> String {
    format!("Unsuppported conversion: {v:?}")
}

/// Whether a pattern is a regular expression: when not matching exactly,
/// every pattern but the empty one.
pub open spec fn uses_regex(p: Seq<char>, exact: bool) -> bool {
    !exact && p.len() > 0
}

/// Whether a pattern matches a key: one of its `|`-separated alternatives
/// equals the key (both trimmed of white space), or, for a regular
/// expression, it matches somewhere in the key.
pub open spec fn pattern_hit(p: Seq<char>, key: Seq<char>, exact: bool) -> bool {
    if uses_regex(p, exact) {
        regex_match(p, key)
    } else {
        exists|k: int|
            0 <= k < split_on(p, seq!['|']).len() && #[trigger] trim_white(split_on(p, seq!['|'])[k])
                == trim_white(key)
    }
}

/// The first pattern from `i` on that matches the key; an error when a
/// regular expression that does not compile comes first.
pub open spec fn route(ps: Seq<Seq<char>>, key: Seq<char>, exact: bool, i: int) -> Result<Option<int>, ()>
    decreases ps.len() - i,
{
    if i < 0 || i >= ps.len() {
        Ok(None)
    } else if uses_regex(ps[i], exact) && !regex_valid(ps[i]) {
        Err(())
    } else if pattern_hit(ps[i], key, exact) {
        Ok(Some(i))
    } else {
        route(ps, key, exact, i + 1)
    }
}

/// The outputs of a match: the data on output `pos`, an empty placeholder of
/// the node's kind on each of the others.
pub open spec fn routed(kind: ValueKind, outputs: int, pos: int, data: FlowValue) -> Seq<FlowValue> {
    Seq::new(outputs as nat, |j: int| if j == pos { data } else { FlowValue::Placeholder(kind) })
}

/// The key a match reads from its first input, when it is not a number:
/// a text, the text of a message (which the host reads out of the
/// message), or the text of a JSON string.
pub open spec fn match_key(k: FlowValue, message_text: Seq<char>) -> Option<Seq<char>> {
    match k {
        FlowValue::Text(t) => Some(t@),
        FlowValue::Message(_) => Some(message_text),
        FlowValue::Json(j) => json_string(*j),
        _ => None,
    }
}

/// Whether the key is a number, which the host matches against the patterns
/// as numbers.
pub open spec fn numeric_key(k: FlowValue) -> bool {
    ||| k is Number
    ||| k is Integer
    ||| (k matches FlowValue::Json(j) && json_number(*j))
}

/// The texts of some strings, as a sequence.
pub open spec fn pattern_views(ps: Seq<String>) -> Seq<Seq<char>> {
    ps.map_values(|p: String| p@)
}

impl Matcher {
    /// Whether pattern `i` matches the key.
    fn hits(&self, i: usize, key: &str) -> (r: Result<bool, WorkflowError>)
        requires
            i < self.patterns@.len(),
        ensures
            uses_regex(self.patterns@[i as int]@, self.exact) && !regex_valid(self.patterns@[i as int]@) ==> r is Err
                && r matches Err(WorkflowError::Unknown(_)),
            !(uses_regex(self.patterns@[i as int]@, self.exact) && !regex_valid(self.patterns@[i as int]@))
                ==> r == Ok::<bool, WorkflowError>(pattern_hit(self.patterns@[i as int]@, key@, self.exact)),
    {
        let p = self.patterns[i].as_str();
        if !self.exact && !p.is_empty() {
            match compile_regex(p) {
                Ok(re) => Ok(regex_is_match(&re, key)),
                Err(e) => Err(WorkflowError::Unknown(regex_error_message(e))),
            }
        } else {
            let want = trim_text(key);
            let cs = chars_of(p);
            let bar = vec!['|'];
            assert(bar@ == seq!['|']);
            let alternatives = split_raw(&cs, &bar);
            let ghost pieces = split_on(p@, seq!['|']);
            assert(texts_view(alternatives@) == pieces);
            let mut k: usize = 0;
            while k < alternatives.len()
                invariant
                    k <= alternatives@.len(),
                    i < self.patterns@.len(),
                    !uses_regex(self.patterns@[i as int]@, self.exact),
                    pieces == split_on(self.patterns@[i as int]@, seq!['|']),
                    texts_view(alternatives@) == pieces,
                    want@ == trim_white(key@),
                    forall|q: int| 0 <= q < k ==> #[trigger] trim_white(pieces[q]) != trim_white(key@),
                decreases alternatives@.len() - k,
            {
                let t = trim_text(alternatives[k].as_str());
                assert(alternatives@[k as int]@ == pieces[k as int]);
                if same_text(t.as_str(), want.as_str()) {
                    return Ok(true);
                }
                k += 1;
            }
            Ok(false)
        }
    }

    /// The first pattern that matches the key (see [`route`]).
    fn route_key(&self, key: &str) -> (r: Result<Option<usize>, WorkflowError>)
        ensures
            r matches Ok(Some(b)) ==> b < self.patterns@.len(),
            match route(pattern_views(self.patterns@), key@, self.exact, 0) {
                Ok(p) => r matches Ok(q) && match (p, q) {
                    (Some(a), Some(b)) => a == b as int,
                    (None, None) => true,
                    _ => false,
                },
                Err(_) => r matches Err(WorkflowError::Unknown(_)),
            },
    {
        let ghost ps = pattern_views(self.patterns@);
        let mut i: usize = 0;
        while i < self.patterns.len()
            invariant
                i <= self.patterns@.len(),
                ps == pattern_views(self.patterns@),
                route(ps, key@, self.exact, 0) == route(ps, key@, self.exact, i as int),
            decreases self.patterns@.len() - i,
        {
            assert(ps[i as int] == self.patterns@[i as int]@);
            match self.hits(i, key) {
                Ok(true) => {
                    return Ok(Some(i));
                },
                Ok(false) => {},
                Err(e) => {
                    return Err(e);
                },
            }
            i += 1;
        }
        Ok(None)
    }

    /// Routes the data (second input) by the key (first input): to the
    /// output of the first pattern that matches, else to the last output.
    /// A numeric key is matched by the host against the patterns as numbers:
    /// the answer is then `None`. Without data there are no outputs.
    pub fn execute(&self, inputs: &Vec<Option<FlowValue>>, message_text: &str) -> (r: Result<
        Option<Vec<FlowValue>>,
        WorkflowError,
    >)
        requires
            self.patterns@.len() < usize::MAX,
        ensures
            !valid_inputs(WorkNode::Match(*self), inputs@) ==> r matches Err(WorkflowError::Required(_)),
            valid_inputs(WorkNode::Match(*self), inputs@) ==> match inputs@[1] {
                None => r matches Ok(Some(v)) && v@.len() == 0,
                Some(data) => match inputs@[0] {
                    None => r matches Err(WorkflowError::Required(m)) && m@.len() == 1 && m@[0]@
                        == "Key is required"@,
                    Some(k) => if numeric_key(k) {
                        r matches Ok(None)
                    } else {
                        match match_key(k, message_text@) {
                            None => r matches Err(WorkflowError::Conversion(_)),
                            Some(key) => match route(pattern_views(self.patterns@), key, self.exact, 0) {
                                Ok(p) => r matches Ok(Some(v)) && v@ == routed(
                                    self.kind,
                                    self.patterns@.len() + 1 as int,
                                    match p {
                                        Some(a) => a,
                                        None => self.patterns@.len() as int,
                                    },
                                    data,
                                ),
                                Err(_) => r matches Err(WorkflowError::Unknown(_)),
                            },
                        }
                    },
                },
            },
    {
        let node = WorkNode::Match(Matcher { kind: self.kind, patterns: copy_texts(&self.patterns), exact: self.exact });
        match node.validate(inputs) {
            Ok(()) => {},
            Err(e) => {
                return Err(e);
            },
        }
        assert(valid_inputs(WorkNode::Match(*self), inputs@));
        let data = match &inputs[1] {
            Some(v) => v.duplicate(),
            None => {
                return Ok(Some(Vec::new()));
            },
        };
        let key: String = match &inputs[0] {
            None => {
                return Err(WorkflowError::Required(vec!["Key is required".to_owned()]));
            },
            Some(FlowValue::Number(_)) => {
                return Ok(None);
            },
            Some(FlowValue::Integer(_)) => {
                return Ok(None);
            },
            Some(FlowValue::Json(j)) => {
                if json_is_number(&**j) {
                    return Ok(None);
                }
                match json_as_text(&**j) {
                    Some(t) => t,
                    None => {
                        return Err(WorkflowError::Conversion(unsupported_key_message(&**j)));
                    },
                }
            },
            Some(FlowValue::Text(t)) => (**t).clone(),
            Some(FlowValue::Message(_)) => message_text.to_owned(),
            Some(v) => {
                proof {
                    assert(WorkNode::Match(*self).kinds_at(0).contains(kind_of(*v)));
                }
                vstd::pervasive::unreached()
            },
        };
        let pos = match self.route_key(key.as_str()) {
            Ok(Some(p)) => p,
            Ok(None) => self.patterns.len(),
            Err(e) => {
                return Err(e);
            },
        };
        let n = self.patterns.len() + 1;
        let mut out: Vec<FlowValue> = Vec::new();
        let mut j: usize = 0;
        while j < n
            invariant
                j <= n,
                n == self.patterns@.len() + 1,
                pos < n,
                out@ == routed(self.kind, n as int, pos as int, data).take(j as int),
            decreases n - j,
        {
            if j == pos {
                out.push(data.duplicate());
            } else {
                out.push(FlowValue::Placeholder(self.kind));
            }
            proof {
                assert(out@ =~= routed(self.kind, n as int, pos as int, data).take(j + 1));
            }
            j += 1;
        }
        assert(out@ =~= routed(self.kind, n as int, pos as int, data));
        Ok(Some(out))
    }
}

} // verus!

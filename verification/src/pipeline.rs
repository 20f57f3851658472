//! Pipelines: sequences of model requests run on the user's prompt, whose
//! replies are gathered into a side conversation of the session.
use vstd::prelude::*;

use crate::chat::{
    appended, content_views, conversation, entry_views, ChatContent, ChatHistory, ContentView, EntryView, HistoryView,
};
use crate::json::{json_from_text, json_object, json_object_of, json_str, keys_distinct, member_views};
use crate::nodes::owned_history;
use crate::template::{render_plain, template_rendered_plain};

verus! {

/// A single step of a pipeline. The temperature is held as the bits of its
/// IEEE 754 double.
#[derive(Debug, Clone, PartialEq)]
pub struct Workstep {
    pub disabled: bool,
    pub temperature: Option<u64>,
    /// Overrides the pipeline's instructions for this step.
    pub preamble: Option<String>,
    /// How many of the last messages are meant as context.
    pub depth: Option<usize>,
    /// The template of the prompt.
    pub prompt: String,
    pub tools: Option<String>,
}

/// A sequence of steps, each a request to a model.
#[derive(Debug, Clone, PartialEq)]
pub struct Pipeline {
    pub name: String,
    /// Keeps only the final replies in the conversation.
    pub collapse: bool,
    /// Overrides the agent's instructions.
    pub preamble: Option<String>,
    pub steps: Vec<Workstep>,
}

impl Default for Pipeline {
    /// An unnamed pipeline of one enabled step that sends the user's prompt.
    fn default() -> (r: Self)
        ensures
            r.name@.len() == 0,
            !r.collapse,
            r.preamble is None,
            r.steps@.len() == 1,
            !r.steps@[0].disabled,
            r.steps@[0].temperature is None,
            r.steps@[0].preamble is None,
            r.steps@[0].depth is None,
            r.steps@[0].prompt@ == "{{user_prompt}}"@,
            r.steps@[0].tools is None,
    {
        Pipeline {
            name: String::new(),
            collapse: false,
            preamble: None,
            steps: vec![
                Workstep {
                    disabled: false,
                    temperature: None,
                    preamble: None,
                    depth: None,
                    prompt: "{{user_prompt}}".to_owned(),
                    tools: None,
                },
            ],
        }
    }
}

/// The message an entry contributes to a request: its message, or the last
/// message of its side conversation; an error contributes none.
pub open spec fn request_pick() -> spec_fn(EntryView) -> Option<serde_json::Value> {
    |e: EntryView|
        match e.content {
            ContentView::Message(m) => Some(m),
            ContentView::Aside { content, .. } => if content.len() > 0 {
                Some(content.last())
            } else {
                None
            },
            ContentView::Error(_) => None,
        }
}

/// The replies among the results of the steps run so far.
pub open spec fn reply_pick() -> spec_fn(Result<serde_json::Value, String>) -> Option<serde_json::Value> {
    |r: Result<serde_json::Value, String>|
        match r {
            Ok(m) => Some(m),
            Err(_) => None,
        }
}

/// The history a step's request carries: the messages of the conversation
/// (see [`request_pick`]), then the replies gathered so far, before the
/// step's own prompt, which is the last of `scratch`.
pub open spec fn step_history_spec(session: ChatHistory, scratch: Seq<Result<serde_json::Value, String>>) -> Seq<
    serde_json::Value,
> {
    conversation(session@).filter_map(request_pick()) + scratch.drop_last().filter_map(reply_pick())
}

/// The history a step's request carries (see [`step_history_spec`]).
pub fn step_history(session: &ChatHistory, scratch: &Vec<Result<serde_json::Value, String>>) -> (r: Vec<
    serde_json::Value,
>)
    requires
        scratch@.len() >= 1,
    ensures
        r@ == step_history_spec(*session, scratch@),
{
    let entries = session.iter();
    let ghost ev = entry_views(entries@);
    let mut out: Vec<serde_json::Value> = Vec::new();
    let mut i: usize = 0;
    while i < entries.len()
        invariant
            i <= entries@.len(),
            ev == entry_views(entries@),
            ev == conversation(session@),
            out@ == ev.take(i as int).filter_map(request_pick()),
        decreases entries@.len() - i,
    {
        proof {
            ev.lemma_filter_map_take_succ(request_pick(), i as int);
        }
        let ghost before = out@;
        match &entries[i].content {
            ChatContent::Message(m) => {
                out.push(m.clone());
                assert(out@ =~= before + seq![*m]);
            },
            ChatContent::Aside { content, .. } => {
                if content.len() > 0 {
                    let last = content[content.len() - 1].clone();
                    out.push(last);
                    assert(out@ =~= before + seq![content@.last()]);
                }
            },
            ChatContent::Error(_) => {},
        }
        i += 1;
    }
    assert(ev.take(entries@.len() as int) =~= ev);
    let ghost head = out@;
    let n = scratch.len() - 1;
    let ghost sv = scratch@.drop_last();
    let mut k: usize = 0;
    while k < n
        invariant
            k <= n,
            n == scratch@.len() - 1,
            sv == scratch@.drop_last(),
            out@ == head + sv.take(k as int).filter_map(reply_pick()),
        decreases n - k,
    {
        proof {
            sv.lemma_filter_map_take_succ(reply_pick(), k as int);
        }
        let ghost before = out@;
        match &scratch[k] {
            Ok(m) => {
                out.push(m.clone());
                assert(out@ =~= head + (sv.take(k as int).filter_map(reply_pick()) + seq![*m]));
            },
            Err(_) => {},
        }
        k += 1;
    }
    assert(sv.take(n as int) =~= sv);
    out
}

/// The contents of the results of the steps: a reply becomes a message and a
/// failure an error.
pub open spec fn result_contents(s: Seq<Result<serde_json::Value, String>>) -> Seq<ContentView> {
    s.map_values(
        |r: Result<serde_json::Value, String>|
            match r {
                Ok(m) => ContentView::Message(m),
                Err(e) => ContentView::Error(e@),
            },
    )
}

/// The content of a result.
fn content_of(r: &Result<serde_json::Value, String>) -> (c: ChatContent)
    ensures
        c@ == match *r {
            Ok(m) => ContentView::Message(m),
            Err(e) => ContentView::Error(e@),
        },
{
    match r {
        Ok(m) => ChatContent::Message(m.clone()),
        Err(e) => ChatContent::Error(e.clone()),
    }
}

/// The failures among the results, as error contents.
pub open spec fn failure_pick() -> spec_fn(Result<serde_json::Value, String>) -> Option<ContentView> {
    |r: Result<serde_json::Value, String>|
        match r {
            Ok(_) => None,
            Err(e) => Some(ContentView::Error(e@)),
        }
}

/// What a pipeline run adds to the conversation on branch `b`: with at most
/// two results (the prompt and one reply), each result; otherwise the
/// prompt, one collapsed side conversation named after the pipeline with the
/// replies, and the failures as errors.
pub open spec fn run_contents(
    scratch: Seq<Result<serde_json::Value, String>>,
    name: Seq<char>,
    user_prompt: Seq<char>,
) -> Seq<ContentView> {
    if scratch.len() <= 2 {
        result_contents(scratch)
    } else {
        seq![
            result_contents(scratch)[0],
            ContentView::Aside {
                automation: name,
                prompt: user_prompt,
                collapsed: true,
                content: scratch.drop_first().filter_map(reply_pick()),
            },
        ] + scratch.drop_first().filter_map(failure_pick())
    }
}

/// Appending contents in two goes is appending them all at once.
proof fn lemma_appended_concat(
    v: HistoryView,
    b: Seq<char>,
    c1: Seq<ContentView>,
    ids1: Seq<u128>,
    c2: Seq<ContentView>,
    ids2: Seq<u128>,
)
    requires
        ids1.len() == c1.len(),
        ids2.len() == c2.len(),
    ensures
        appended(appended(v, b, c1, ids1), b, c2, ids2) == appended(v, b, c1 + c2, ids1 + ids2),
    decreases c2.len(),
{
    if c2.len() == 0 {
        assert(c1 + c2 =~= c1);
        assert(ids1 + ids2 =~= ids1);
    } else {
        lemma_appended_concat(v, b, c1, ids1, c2.drop_last(), ids2.drop_last());
        assert((c1 + c2).drop_last() =~= c1 + c2.drop_last());
        assert((ids1 + ids2).drop_last() =~= ids1 + ids2.drop_last());
        assert((c1 + c2).last() == c2.last());
        assert((ids1 + ids2).last() == ids2.last());
    }
}

/// Records the results of a pipeline run in the session, on `branch` (see
/// [`run_contents`]); the first result is the prompt. Each entry gets a
/// fresh random id.
pub fn record_run(
    history: &ChatHistory,
    scratch: &Vec<Result<serde_json::Value, String>>,
    name: &str,
    user_prompt: &str,
    branch: &str,
) -> (r: ChatHistory)
    ensures
        exists|ids: Seq<u128>|
            ids.len() == run_contents(scratch@, name@, user_prompt@).len() && r@ == appended(
                history@,
                branch@,
                run_contents(scratch@, name@, user_prompt@),
                ids,
            ),
{
    let ghost rc = result_contents(scratch@);
    if scratch.len() <= 2 {
        let mut contents: Vec<ChatContent> = Vec::new();
        let mut k: usize = 0;
        while k < scratch.len()
            invariant
                k <= scratch@.len(),
                rc == result_contents(scratch@),
                content_views(contents@) == rc.take(k as int),
            decreases scratch@.len() - k,
        {
            let c = content_of(&scratch[k]);
            let ghost before = contents@;
            contents.push(c);
            proof {
                assert(content_views(contents@) =~= content_views(before).push(c@));
                assert(rc.take(k + 1) =~= rc.take(k as int).push(rc[k as int]));
            }
            k += 1;
        }
        assert(rc.take(scratch@.len() as int) =~= rc);
        assert(rc == run_contents(scratch@, name@, user_prompt@));
        assert(content_views(contents@) == rc);
        owned_history(history.extend(contents, Some(branch)).unwrap())
    } else {
        let ghost sv = scratch@.drop_first();
        let prompt_msg = content_of(&scratch[0]);
        let mut replies: Vec<serde_json::Value> = Vec::new();
        let mut errors: Vec<ChatContent> = Vec::new();
        let mut k: usize = 1;
        while k < scratch.len()
            invariant
                1 <= k <= scratch@.len(),
                sv == scratch@.drop_first(),
                replies@ == sv.take(k - 1).filter_map(reply_pick()),
                content_views(errors@) == sv.take(k - 1).filter_map(failure_pick()),
            decreases scratch@.len() - k,
        {
            proof {
                sv.lemma_filter_map_take_succ(reply_pick(), k - 1);
                sv.lemma_filter_map_take_succ(failure_pick(), k - 1);
                assert(sv[k - 1] == scratch@[k as int]);
            }
            let ghost rb = replies@;
            let ghost eb = errors@;
            match &scratch[k] {
                Ok(m) => {
                    replies.push(m.clone());
                    assert(replies@ =~= rb + seq![*m]);
                },
                Err(e) => {
                    let c = ChatContent::Error(e.clone());
                    errors.push(c);
                    assert(content_views(errors@) =~= content_views(eb) + seq![c@]);
                },
            }
            k += 1;
        }
        assert(sv.take(sv.len() as int) =~= sv);
        let aside = ChatContent::Aside {
            automation: name.to_owned(),
            prompt: user_prompt.to_owned(),
            collapsed: true,
            content: replies,
        };
        let first = owned_history(history.push(prompt_msg, Some(branch)).unwrap());
        let second = owned_history(first.push(aside, Some(branch)).unwrap());
        let third = owned_history(second.extend(errors, Some(branch)).unwrap());
        proof {
            let b = branch@;
            let ids1 = choose|ids: Seq<u128>| ids.len() == 1 && first@ == appended(history@, b, seq![prompt_msg@], ids);
            let ids2 = choose|ids: Seq<u128>| ids.len() == 1 && second@ == appended(first@, b, seq![aside@], ids);
            let ids3 = choose|ids: Seq<u128>|
                ids.len() == errors@.len() && third@ == appended(second@, b, content_views(errors@), ids);
            lemma_appended_concat(history@, b, seq![prompt_msg@], ids1, seq![aside@], ids2);
            lemma_appended_concat(history@, b, seq![prompt_msg@, aside@], ids1 + ids2, content_views(errors@), ids3);
            assert(seq![prompt_msg@] + seq![aside@] =~= seq![prompt_msg@, aside@]);
            assert(rc[0] == prompt_msg@);
            assert(seq![prompt_msg@, aside@] + content_views(errors@) == run_contents(scratch@, name@, user_prompt@));
            assert((ids1 + ids2 + ids3).len() == run_contents(scratch@, name@, user_prompt@).len());
            assert(third@ == appended(history@, b, run_contents(scratch@, name@, user_prompt@), ids1 + ids2 + ids3));
        }
        third
    }
}

/// The variables of a step's prompt: the object whose only member is the
/// user's prompt under `user_prompt`.
pub open spec fn prompt_vars(user_prompt: Seq<char>) -> serde_json::Value {
    json_object_of(seq![("user_prompt"@, json_str(user_prompt))])
}

impl Workstep {
    /// The prompt a step sends: its template rendered with the user's prompt
    /// as `user_prompt`; none for a disabled step or a template that does not
    /// render, which the run skips.
    pub fn step_prompt(&self, user_prompt: &str) -> (r: Option<String>)
        ensures
            self.disabled ==> r is None,
            !self.disabled ==> match template_rendered_plain(self.prompt@, prompt_vars(user_prompt@)) {
                Some(t) => r matches Some(s) && s@ == t,
                None => r is None,
            },
    {
        if self.disabled {
            return None;
        }
        let mut members: Vec<(String, serde_json::Value)> = Vec::new();
        members.push(("user_prompt".to_owned(), json_from_text(user_prompt)));
        assert(keys_distinct(members@));
        let vars = json_object(members);
        assert(member_views(members@) =~= seq![("user_prompt"@, json_str(user_prompt@))]);
        match render_plain(self.prompt.as_str(), &vars) {
            Ok(p) => Some(p),
            Err(_) => None,
        }
    }
}

/// The runs kept in the log: the newest 128.
pub open spec fn kept_runs<T>(runs: Seq<T>) -> Seq<T> {
    if runs.len() > 128 {
        runs.subrange(runs.len() - 128, runs.len() as int)
    } else {
        runs
    }
}

/// Adds a run to the log, dropping the oldest runs beyond the newest 128.
pub fn log_run<T>(runs: &mut Vec<T>, entry: T)
    ensures
        final(runs)@ == kept_runs(old(runs)@.push(entry)),
{
    runs.push(entry);
    if runs.len() > 128 {
        let extra = runs.len() - 128;
        let ghost all = runs@;
        let mut k: usize = 0;
        while k < extra
            invariant
                k <= extra,
                extra == all.len() - 128,
                runs@ == all.subrange(k as int, all.len() as int),
            decreases extra - k,
        {
            runs.remove(0);
            proof {
                assert(runs@ =~= all.subrange(k as int + 1, all.len() as int));
            }
            k += 1;
        }
    }
}

} // verus!

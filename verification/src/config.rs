//! Configuration: the command line's subcommands, the seed of the model
//! requests, the tool providers and the selections of tools that an agent may
//! call.
use std::sync::atomic::AtomicU64;
use std::sync::Arc;
use vstd::prelude::*;

use crate::utils::chars_of;

use vstd::std_specs::cmp::PartialEqSpecImpl;

use crate::chat::same_text;

verus! {

#[verifier::external_type_specification]
#[verifier::external_body]
pub struct ExPathBuf(std::path::PathBuf);

#[verifier::external_type_specification]
#[verifier::external_body]
pub struct ExPattern(glob::Pattern);

#[verifier::external_type_specification]
#[verifier::external_body]
pub struct ExPatternError(glob::PatternError);

/// The command line: the session to open, where the settings, sessions,
/// workflows and backups live, and a subcommand.
#[derive(Clone, Debug)]
pub struct Args {
    pub session: Option<String>,
    pub config: Option<std::path::PathBuf>,
    pub session_dir: Option<std::path::PathBuf>,
    pub workflow_dir: Option<std::path::PathBuf>,
    pub backup_dir: Option<std::path::PathBuf>,
    pub command: Option<Command>,
}

/// The subcommands of the program.
#[derive(Clone, Debug, PartialEq, Eq)]
pub enum Command {
    /// Commands on the stored sessions.
    Session { subcmd: SessionCommand },
}

/// The commands on the stored sessions.
#[derive(Clone, Copy, Debug, PartialEq, Eq)]
pub enum SessionCommand {
    /// List the stored sessions.
    List,
}

/// Whether a number is zero (a seed increment of zero is left out when saved).
pub fn is_zero(x: &u64) -> (r: bool)
    ensures
        r == (*x == 0),
{
    *x == 0
}

/// The seed handed to the model with each request, and how much it grows after
/// each request.
#[derive(Debug, Clone)]
pub struct SeedConfig {
    pub value: Arc<AtomicU64>,
    pub increment: u64,
}

impl SeedConfig {
    /// A seed that starts at `value` and grows by `increment`.
    pub fn new(value: u64, increment: u64) -> (r: Self)
        ensures
            r.increment == increment,
    {
        SeedConfig { value: Arc::new(AtomicU64::new(value)), increment }
    }

    /// Takes the current seed and advances it by the increment, wrapping on
    /// overflow. The seed is shared between threads, so nothing is stated of
    /// the value read.
    pub fn next_seed(&self) -> u64 {
        self.value.fetch_add(self.increment, std::sync::atomic::Ordering::Relaxed)
    }

    /// The current seed, without advancing it.
    pub fn current(&self) -> u64 {
        self.value.load(std::sync::atomic::Ordering::Relaxed)
    }
}

/// How to reach a tool provider.
#[derive(Debug, Clone)]
pub enum ToolSpec {
    /// A provider run as a child process that speaks over its standard streams.
    Stdio {
        enabled: bool,
        preface: Option<String>,
        dir: Option<std::path::PathBuf>,
        env: String,
        command: String,
        args: Vec<String>,
    },
    /// A provider reached over HTTP.
    HTTP {
        enabled: bool,
        preface: Option<String>,
        uri: String,
        /// The environment variable that holds the API key.
        auth_var: Option<String>,
    },
}

/// The mathematical value of a [`ToolSpec`]: its texts as sequences of characters.
pub enum ToolSpecView {
    Stdio {
        enabled: bool,
        preface: Option<Seq<char>>,
        dir: Option<std::path::PathBuf>,
        env: Seq<char>,
        command: Seq<char>,
        args: Seq<Seq<char>>,
    },
    HTTP {
        enabled: bool,
        preface: Option<Seq<char>>,
        uri: Seq<char>,
        auth_var: Option<Seq<char>>,
    },
}

/// The text of an optional string.
pub open spec fn opt_text(s: Option<String>) -> Option<Seq<char>> {
    match s {
        Some(t) => Some(t@),
        None => None,
    }
}

/// The texts of a list of strings.
pub open spec fn texts(v: Seq<String>) -> Seq<Seq<char>> {
    v.map_values(|s: String| s@)
}

impl View for ToolSpec {
    type V = ToolSpecView;

    open spec fn view(&self) -> ToolSpecView {
        match self {
            ToolSpec::Stdio { enabled, preface, dir, env, command, args } => ToolSpecView::Stdio {
                enabled: *enabled,
                preface: opt_text(*preface),
                dir: *dir,
                env: env@,
                command: command@,
                args: texts(args@),
            },
            ToolSpec::HTTP { enabled, preface, uri, auth_var } => ToolSpecView::HTTP {
                enabled: *enabled,
                preface: opt_text(*preface),
                uri: uri@,
                auth_var: opt_text(*auth_var),
            },
        }
    }
}

/// `PathBuf::clone`: a path with the same contents.
pub assume_specification[ <std::path::PathBuf as Clone>::clone ](p: &std::path::PathBuf) -> (r:
    std::path::PathBuf)
    ensures
        r == *p,
;

/// A copy of a list of strings.
pub fn copy_texts(v: &Vec<String>) -> (r: Vec<String>)
    ensures
        r@ == v@,
{
    let mut out: Vec<String> = Vec::new();
    let mut i: usize = 0;
    while i < v.len()
        invariant
            i <= v@.len(),
            out@ == v@.subrange(0, i as int),
        decreases v@.len() - i,
    {
        out.push(v[i].clone());
        i += 1;
    }
    assert(out@ == v@);
    out
}

/// A copy of an optional string.
fn copy_opt(s: &Option<String>) -> (r: Option<String>)
    ensures
        r == *s,
{
    match s {
        Some(t) => Some(t.clone()),
        None => None,
    }
}

impl ToolSpec {
    /// Whether the provider is switched on.
    pub open spec fn is_enabled(self) -> bool {
        match self {
            ToolSpec::Stdio { enabled, .. } => enabled,
            ToolSpec::HTTP { enabled, .. } => enabled,
        }
    }

    /// The text put before the provider's tool descriptions, if any.
    pub open spec fn preface_text(self) -> Option<Seq<char>> {
        match self {
            ToolSpec::Stdio { preface, .. } => opt_text(preface),
            ToolSpec::HTTP { preface, .. } => opt_text(preface),
        }
    }

    pub fn enabled(&self) -> (r: bool)
        ensures
            r == self.is_enabled(),
    {
        match self {
            ToolSpec::Stdio { enabled, .. } => *enabled,
            ToolSpec::HTTP { enabled, .. } => *enabled,
        }
    }

    pub fn preface(&self) -> (r: Option<&str>)
        ensures
            r.is_some() == self.preface_text().is_some(),
            r matches Some(p) ==> p@ == self.preface_text().unwrap(),
    {
        let preface = match self {
            ToolSpec::Stdio { preface, .. } => preface,
            ToolSpec::HTTP { preface, .. } => preface,
        };
        match preface {
            Some(p) => Some(p.as_str()),
            None => None,
        }
    }

    /// A copy with the same value.
    pub fn duplicate(&self) -> (r: ToolSpec)
        ensures
            r@ == self@,
            r.is_enabled() == self.is_enabled(),
    {
        match self {
            ToolSpec::Stdio { enabled, preface, dir, env, command, args } => {
                let d = match dir {
                    Some(p) => Some(p.clone()),
                    None => None,
                };
                ToolSpec::Stdio {
                    enabled: *enabled,
                    preface: copy_opt(preface),
                    dir: d,
                    env: env.clone(),
                    command: command.clone(),
                    args: copy_texts(args),
                }
            },
            ToolSpec::HTTP { enabled, preface, uri, auth_var } => ToolSpec::HTTP {
                enabled: *enabled,
                preface: copy_opt(preface),
                uri: uri.clone(),
                auth_var: copy_opt(auth_var),
            },
        }
    }
}

impl Default for ToolSpec {
    /// A disabled child-process provider with an empty command.
    fn default() -> (r: Self)
        ensures
            r matches ToolSpec::Stdio { enabled, preface, dir, env, command, args } && !enabled
                && preface is None && dir is None && env@.len() == 0 && command@.len() == 0
                && args@.len() == 0,
    {
        ToolSpec::Stdio {
            enabled: false,
            preface: None,
            dir: None,
            env: String::new(),
            command: String::new(),
            args: Vec::new(),
        }
    }
}

// ---------------------------------------------------------------------------
// Shell-style patterns over "provider/tool" paths
// ---------------------------------------------------------------------------

/// Whether `glob::Pattern::new` accepts the text.
pub uninterp spec fn glob_valid(text: Seq<char>) -> bool;

/// What `glob::Pattern::as_str` gives back: the text the pattern was made from.
pub uninterp spec fn glob_text(pattern: glob::Pattern) -> Seq<char>;

/// What `glob::Pattern::matches` answers for the pattern made from `text`, on `path`.
pub uninterp spec fn glob_match(text: Seq<char>, path: Seq<char>) -> bool;

/// Whether a text holds none of glob's metacharacters `*`, `?` and `[`:
/// each of its characters stands for itself.
pub open spec fn literal_text(t: Seq<char>) -> bool {
    forall|i: int| 0 <= i < t.len() ==> #[trigger] t[i] != '*' && t[i] != '?' && t[i] != '['
}

/// `glob::Pattern::new`: compiles a shell-style pattern. It succeeds exactly
/// on the texts named `glob_valid`, and the pattern keeps the text it was made
/// from (what `as_str` gives back). A text without metacharacters compiles
/// (each character becomes a literal token); which other texts are valid is
/// glob's own rule and is not stated.
#[verifier::external_body]
pub fn tool_glob(pattern: String) -> (r: Result<glob::Pattern, glob::PatternError>)
    ensures
        r is Ok == glob_valid(pattern@),
        r matches Ok(p) ==> glob_text(p) == pattern@,
        literal_text(pattern@) ==> r is Ok,
{
    glob::Pattern::new(&pattern)
}

/// `glob::Pattern::matches` with the default options: whether `path` matches.
/// The answer depends on the pattern's text and the path alone. A pattern
/// without metacharacters matches its own text (each literal token matches
/// its character); which other paths a text matches is glob's own rule and
/// is not stated.
#[verifier::external_body]
fn pattern_matches(pattern: &glob::Pattern, path: &str) -> (r: bool)
    ensures
        r == glob_match(glob_text(*pattern), path@),
        literal_text(glob_text(*pattern)) && path@ == glob_text(*pattern) ==> r,
{
    pattern.matches(path)
}

/// Whether a text holds no glob metacharacter (see [`literal_text`]).
fn literal_check(t: &str) -> (r: bool)
    ensures
        r == literal_text(t@),
{
    let cs = chars_of(t);
    let mut i: usize = 0;
    while i < cs.len()
        invariant
            i <= cs@.len(),
            cs@ == t@,
            forall|k: int| 0 <= k < i ==> #[trigger] cs@[k] != '*' && cs@[k] != '?' && cs@[k] != '[',
        decreases cs@.len() - i,
    {
        if cs[i] == '*' || cs[i] == '?' || cs[i] == '[' {
            return false;
        }
        i += 1;
    }
    true
}

/// Whether one selector pattern selects a path: the pattern must compile and
/// match.
pub open spec fn selects(pattern: Seq<char>, path: Seq<char>) -> bool {
    glob_valid(pattern) && glob_match(pattern, path)
}

/// Whether one of the strings holds the text `t`.
pub open spec fn has_text(v: Seq<String>, t: Seq<char>) -> bool {
    exists|i: int| 0 <= i < v.len() && #[trigger] v[i]@ == t
}

/// The path of a tool: the provider's name, a slash, the tool's name.
pub open spec fn tool_path(provider: Seq<char>, tool: Seq<char>) -> Seq<char> {
    provider + seq!['/'] + tool
}

/// Builds the path of a tool.
pub fn make_tool_path(provider: &str, tool: &str) -> (r: String)
    ensures
        r@ == tool_path(provider@, tool@),
{
    let mut path = provider.to_owned();
    let slash = "/";
    proof {
        reveal_strlit("/");
    }
    path.append(slash);
    path.append(tool);
    path
}

/// A set of selector patterns over tool paths ("provider/tool", with shell
/// wildcards). A tool is selected when any pattern matches its path.
#[derive(Debug)]
pub struct ToolSelector {
    patterns: Vec<String>,
}

impl View for ToolSelector {
    type V = Set<Seq<char>>;

    closed spec fn view(&self) -> Set<Seq<char>> {
        Set::new(|t: Seq<char>| self.holds(t))
    }
}

impl ToolSelector {
    /// Whether the pattern `t` is one of the selector's.
    pub closed spec fn holds(self, t: Seq<char>) -> bool {
        has_text(self.patterns@, t)
    }

    /// No pattern is held twice.
    #[verifier::type_invariant]
    closed spec fn distinct(self) -> bool {
        forall|i: int, j: int|
            0 <= i < j < self.patterns@.len() ==> #[trigger] self.patterns@[i]@
                != #[trigger] self.patterns@[j]@
    }

    /// The patterns, in the order they are held.
    pub fn patterns(&self) -> (r: Vec<String>)
        ensures
            forall|t: Seq<char>| self@.contains(t) <==> exists|i: int| 0 <= i < r@.len() && #[trigger] r@[i]@ == t,
    {
        let mut out: Vec<String> = Vec::new();
        let mut i: usize = 0;
        while i < self.patterns.len()
            invariant
                i <= self.patterns@.len(),
                out@.len() == i,
                forall|k: int| 0 <= k < i ==> #[trigger] out@[k]@ == self.patterns@[k]@,
            decreases self.patterns@.len() - i,
        {
            out.push(self.patterns[i].clone());
            i += 1;
        }
        proof {
            assert forall|t: Seq<char>| self@.contains(t) <==> exists|i: int| 0 <= i < out@.len() && #[trigger] out@[i]@ == t by {
                if self@.contains(t) {
                    let k = choose|k: int| 0 <= k < self.patterns@.len() && #[trigger] self.patterns@[k]@ == t;
                    assert(out@[k]@ == t);
                }
                if exists|i: int| 0 <= i < out@.len() && #[trigger] out@[i]@ == t {
                    let k = choose|k: int| 0 <= k < out@.len() && #[trigger] out@[k]@ == t;
                    assert(self.patterns@[k]@ == t);
                }
            }
        }
        out
    }

    /// The index of the pattern `text`, if the selector holds it.
    fn position(&self, text: &str) -> (r: Option<usize>)
        ensures
            r.is_some() == self@.contains(text@),
            r matches Some(i) ==> i < self.patterns@.len() && self.patterns@[i as int]@ == text@,
    {
        let mut i: usize = 0;
        while i < self.patterns.len()
            invariant
                i <= self.patterns@.len(),
                forall|k: int| 0 <= k < i ==> #[trigger] self.patterns@[k]@ != text@,
            decreases self.patterns@.len() - i,
        {
            if same_text(self.patterns[i].as_str(), text) {
                return Some(i);
            }
            i += 1;
        }
        None
    }

    /// A selector that selects nothing.
    pub fn empty() -> (r: Self)
        ensures
            r@ == Set::<Seq<char>>::empty(),
    {
        let r = ToolSelector { patterns: Vec::new() };
        assert(r@ =~= Set::<Seq<char>>::empty());
        r
    }

    pub fn is_empty(&self) -> (r: bool)
        ensures
            r == (self@ == Set::<Seq<char>>::empty()),
    {
        if self.patterns.len() == 0 {
            assert(self@ =~= Set::<Seq<char>>::empty());
            true
        } else {
            assert(self@.contains(self.patterns@[0]@));
            false
        }
    }

    /// The selector of every tool of every provider: the one pattern "*/*".
    pub fn all() -> (r: Self)
        ensures
            r@ == set!["*/*"@],
    {
        proof {
            reveal_strlit("*");
        }
        let r = Self::empty().with_include("*", "*");
        proof {
            reveal_strlit("*/*");
            assert(tool_path("*"@, "*"@) =~= "*/*"@);
        }
        r
    }

    pub fn is_all(&self) -> (r: bool)
        ensures
            r == self@.contains("*/*"@),
    {
        self.position("*/*").is_some()
    }

    /// The selector with the pattern "provider/tool" added.
    pub fn with_include(self, provider: &str, tool: &str) -> (r: Self)
        ensures
            r@ == self@.insert(tool_path(provider@, tool@)),
    {
        let mut s = self;
        let path = make_tool_path(provider, tool);
        s.add(path.as_str());
        s
    }

    /// Adds a pattern.
    pub fn add(&mut self, selector: &str)
        ensures
            final(self)@ == old(self)@.insert(selector@),
    {
        proof {
            use_type_invariant(&*self);
        }
        if self.position(selector).is_none() {
            let ghost before = self.patterns@;
            let mut grown: Vec<String> = Vec::new();
            std::mem::swap(&mut grown, &mut self.patterns);
            grown.push(selector.to_owned());
            self.patterns = grown;
            proof {
                assert(self.patterns@[before.len() as int]@ == selector@);
                assert forall|i: int, j: int|
                    0 <= i < j < self.patterns@.len() implies #[trigger] self.patterns@[i]@
                    != #[trigger] self.patterns@[j]@ by {
                    if j == before.len() {
                        assert(before[i] == self.patterns@[i]);
                    } else {
                        assert(before[i] == self.patterns@[i]);
                        assert(before[j] == self.patterns@[j]);
                    }
                }
                assert forall|t: Seq<char>| self.holds(t) == old(self).holds(t) || t == selector@ by {
                    if self.holds(t) {
                        let k = choose|k: int| 0 <= k < self.patterns@.len() && #[trigger] self.patterns@[k]@ == t;
                        if k < before.len() {
                            assert(before[k]@ == t);
                        }
                    }
                    if old(self).holds(t) {
                        let k = choose|k: int| 0 <= k < before.len() && #[trigger] before[k]@ == t;
                        assert(self.patterns@[k]@ == t);
                    }
                }
            }
        }
        assert(self@ =~= old(self)@.insert(selector@));
    }

    /// Removes a pattern; nothing changes when the selector does not hold it.
    pub fn remove(&mut self, selector: &str)
        ensures
            final(self)@ == old(self)@.remove(selector@),
    {
        proof {
            use_type_invariant(&*self);
        }
        match self.position(selector) {
            Some(idx) => {
                let ghost before = self.patterns@;
                let mut shrunk: Vec<String> = Vec::new();
                std::mem::swap(&mut shrunk, &mut self.patterns);
                shrunk.remove(idx);
                self.patterns = shrunk;
                proof {
                    assert(self.patterns@ == before.remove(idx as int));
                    assert forall|i: int, j: int|
                        0 <= i < j < self.patterns@.len() implies #[trigger] self.patterns@[i]@
                        != #[trigger] self.patterns@[j]@ by {
                        let bi = if i < idx { i } else { i + 1 };
                        let bj = if j < idx { j } else { j + 1 };
                        assert(self.patterns@[i] == before[bi]);
                        assert(self.patterns@[j] == before[bj]);
                        assert(before[bi]@ != before[bj]@);
                    }
                    assert forall|t: Seq<char>| self.holds(t) == (old(self).holds(t) && t != selector@) by {
                        if self.holds(t) {
                            let k = choose|k: int| 0 <= k < self.patterns@.len() && #[trigger] self.patterns@[k]@ == t;
                            let bk = if k < idx { k } else { k + 1 };
                            assert(before[bk]@ == t);
                            assert(bk != idx);
                        }
                        if old(self).holds(t) && t != selector@ {
                            let k = choose|k: int| 0 <= k < before.len() && #[trigger] before[k]@ == t;
                            assert(k != idx);
                            if k < idx {
                                assert(self.patterns@[k]@ == t);
                            } else {
                                assert(self.patterns@[k - 1]@ == t);
                            }
                        }
                    }
                }
                assert(self@ =~= old(self)@.remove(selector@));
            },
            None => {
                assert(self@ =~= old(self)@.remove(selector@));
            },
        }
    }

    /// Selects the tool `tool` of provider `provider` by its exact path.
    pub fn select_tool(&mut self, provider: &str, tool: &str)
        ensures
            final(self)@ == old(self)@.insert(tool_path(provider@, tool@)),
    {
        let path = make_tool_path(provider, tool);
        self.add(path.as_str());
    }

    /// Removes every pattern that selects the tool, and every pattern that
    /// does not compile.
    pub fn exclude(&mut self, provider: &str, tool: &str)
        ensures
            final(self)@ == old(self)@.filter(
                |p: Seq<char>| glob_valid(p) && !glob_match(p, tool_path(provider@, tool@)),
            ),
    {
        proof {
            use_type_invariant(&*self);
        }
        let path = make_tool_path(provider, tool);
        let ghost keep = |p: Seq<char>| glob_valid(p) && !glob_match(p, path@);
        let mut kept: Vec<String> = Vec::new();
        let mut i: usize = 0;
        while i < self.patterns.len()
            invariant
                i <= self.patterns@.len(),
                path@ == tool_path(provider@, tool@),
                keep == (|p: Seq<char>| glob_valid(p) && !glob_match(p, path@)),
                forall|a: int, b: int|
                    0 <= a < b < self.patterns@.len() ==> #[trigger] self.patterns@[a]@
                        != #[trigger] self.patterns@[b]@,
                forall|a: int, b: int|
                    0 <= a < b < kept@.len() ==> #[trigger] kept@[a]@ != #[trigger] kept@[b]@,
                forall|t: Seq<char>|
                    #[trigger] has_text(kept@, t) <==> (has_text(self.patterns@.take(i as int), t)
                        && keep(t)),
            decreases self.patterns@.len() - i,
        {
            let text = self.patterns[i].clone();
            let selected = match tool_glob(text) {
                Ok(pattern) => !pattern_matches(&pattern, path.as_str()),
                Err(_) => false,
            };
            let ghost before = kept@;
            let ghost cur = self.patterns@[i as int]@;
            proof {
                assert forall|t: Seq<char>|
                    has_text(self.patterns@.take(i as int + 1), t) <==> (has_text(
                        self.patterns@.take(i as int),
                        t,
                    ) || t == cur) by {
                    let s1 = self.patterns@.take(i as int + 1);
                    let s0 = self.patterns@.take(i as int);
                    if has_text(s1, t) {
                        let k = choose|k: int| 0 <= k < s1.len() && #[trigger] s1[k]@ == t;
                        if k < i {
                            assert(s0[k]@ == t);
                        }
                    }
                    if has_text(s0, t) {
                        let k = choose|k: int| 0 <= k < s0.len() && #[trigger] s0[k]@ == t;
                        assert(s1[k]@ == t);
                    }
                    if t == cur {
                        assert(s1[i as int]@ == t);
                    }
                }
                assert(!has_text(self.patterns@.take(i as int), cur)) by {
                    let s0 = self.patterns@.take(i as int);
                    if has_text(s0, cur) {
                        let k = choose|k: int| 0 <= k < s0.len() && #[trigger] s0[k]@ == cur;
                        assert(self.patterns@[k]@ == cur);
                    }
                }
            }
            if selected {
                kept.push(self.patterns[i].clone());
                proof {
                    assert(keep(cur));
                    assert(kept@[before.len() as int]@ == cur);
                    assert forall|t: Seq<char>| #[trigger] has_text(kept@, t) <==> (has_text(before, t)
                        || t == cur) by {
                        if has_text(kept@, t) {
                            let k = choose|k: int| 0 <= k < kept@.len() && #[trigger] kept@[k]@ == t;
                            if k < before.len() {
                                assert(before[k]@ == t);
                            }
                        }
                        if has_text(before, t) {
                            let k = choose|k: int| 0 <= k < before.len() && #[trigger] before[k]@ == t;
                            assert(kept@[k]@ == t);
                        }
                    }
                    assert forall|a: int, b: int|
                        0 <= a < b < kept@.len() implies #[trigger] kept@[a]@ != #[trigger] kept@[b]@ by {
                        assert(kept@[a] == before[a]);
                        if b == before.len() {
                            assert(has_text(before, before[a]@));
                        } else {
                            assert(kept@[b] == before[b]);
                        }
                    }
                }
            } else {
                proof {
                    assert(!keep(cur));
                }
            }
            i += 1;
        }
        let ghost old_view = self@;
        self.patterns = kept;
        proof {
            assert(old(self).patterns@.take(old(self).patterns@.len() as int) == old(self).patterns@);
            assert forall|t: Seq<char>| self@.contains(t) == old_view.filter(keep).contains(t) by {
                assert(self@.contains(t) == has_text(kept@, t));
                assert(old_view.contains(t) == has_text(old(self).patterns@, t));
            }
            assert(self@ =~= old_view.filter(keep));
        }
    }

    /// Whether the tool `tool` of provider `provider` is selected: some
    /// pattern compiles and matches its path.
    pub fn apply(&self, provider: &str, tool: &str) -> (r: bool)
        ensures
            r == exists|p: Seq<char>| self@.contains(p) && #[trigger] selects(p, tool_path(provider@, tool@)),
    {
        let path = make_tool_path(provider, tool);
        let mut i: usize = 0;
        while i < self.patterns.len()
            invariant
                i <= self.patterns@.len(),
                path@ == tool_path(provider@, tool@),
                forall|k: int| 0 <= k < i ==> !selects(#[trigger] self.patterns@[k]@, path@),
            decreases self.patterns@.len() - i,
        {
            let text = self.patterns[i].clone();
            let hit = match tool_glob(text) {
                Ok(pattern) => pattern_matches(&pattern, path.as_str()),
                Err(_) => false,
            };
            if hit {
                proof {
                    assert(self@.contains(self.patterns@[i as int]@));
                    assert(selects(self.patterns@[i as int]@, tool_path(provider@, tool@)));
                }
                return true;
            }
            i += 1;
        }
        proof {
            assert forall|p: Seq<char>| self@.contains(p) implies !#[trigger] selects(p, path@) by {
                let k = choose|k: int| 0 <= k < self.patterns@.len() && #[trigger] self.patterns@[k]@ == p;
            }
        }
        false
    }

    /// Selects the tool when it is not selected; otherwise removes every
    /// pattern that selects it (and every pattern that does not compile).
    pub fn toggle(&mut self, provider: &str, tool: &str)
        ensures
            (exists|p: Seq<char>| old(self)@.contains(p) && #[trigger] selects(p, tool_path(provider@, tool@)))
                ==> final(self)@ == old(self)@.filter(
                |p: Seq<char>| glob_valid(p) && !glob_match(p, tool_path(provider@, tool@)),
            ),
            !(exists|p: Seq<char>| old(self)@.contains(p) && #[trigger] selects(p, tool_path(provider@, tool@)))
                ==> final(self)@ == old(self)@.insert(tool_path(provider@, tool@)),
            literal_text(tool_path(provider@, tool@)) ==> ((exists|p: Seq<char>|
                final(self)@.contains(p) && #[trigger] selects(p, tool_path(provider@, tool@))) != (exists|
                p: Seq<char>,
            | old(self)@.contains(p) && #[trigger] selects(p, tool_path(provider@, tool@)))),
    {
        let path = make_tool_path(provider, tool);
        if self.apply(provider, tool) {
            self.exclude(provider, tool);
            proof {
                assert forall|p: Seq<char>| self@.contains(p) implies !#[trigger] selects(p, path@) by {}
            }
        } else {
            self.select_tool(provider, tool);
            if literal_check(path.as_str()) {
                match tool_glob(path.clone()) {
                    Ok(p) => {
                        let _ = pattern_matches(&p, path.as_str());
                        assert(selects(path@, path@));
                        assert(self@.contains(path@));
                    },
                    Err(_) => {},
                }
            }
        }
    }
}

impl Clone for ToolSelector {
    fn clone(&self) -> (r: Self)
        ensures
            r@ == self@,
    {
        proof {
            use_type_invariant(self);
        }
        let copy = copy_texts(&self.patterns);
        let r = ToolSelector { patterns: copy };
        assert(r@ =~= self@);
        r
    }
}

impl ToolSelector {
    /// Whether every pattern of this selector is one of `other`'s.
    pub fn within(&self, other: &ToolSelector) -> (r: bool)
        ensures
            r == self@.subset_of(other@),
    {
        let mut i: usize = 0;
        while i < self.patterns.len()
            invariant
                i <= self.patterns@.len(),
                forall|k: int| 0 <= k < i ==> other@.contains(#[trigger] self.patterns@[k]@),
            decreases self.patterns@.len() - i,
        {
            if other.position(self.patterns[i].as_str()).is_none() {
                proof {
                    assert(self@.contains(self.patterns@[i as int]@));
                }
                return false;
            }
            i += 1;
        }
        proof {
            assert forall|t: Seq<char>| self@.contains(t) implies other@.contains(t) by {
                let k = choose|k: int| 0 <= k < self.patterns@.len() && #[trigger] self.patterns@[k]@ == t;
            }
        }
        true
    }
}

impl PartialEq for ToolSelector {
    fn eq(&self, other: &Self) -> (r: bool) {
        let r = self.within(other) && other.within(self);
        proof {
            if r {
                assert(self@ =~= other@);
            }
        }
        r
    }
}

impl PartialEqSpecImpl for ToolSelector {
    open spec fn obeys_eq_spec() -> bool {
        true
    }

    open spec fn eq_spec(&self, other: &Self) -> bool {
        self@ == other@
    }
}

impl Default for ToolSelector {
    /// Everything is selected by default.
    fn default() -> (r: Self)
        ensures
            r@ == set!["*/*"@],
    {
        Self::all()
    }
}

/// The configured tool providers and the named selections of their tools.
/// Each name occurs once in each list.
#[derive(Debug, Clone)]
pub struct ToolSettings {
    pub provider: Vec<(String, ToolSpec)>,
    pub toolset: Vec<(String, ToolSelector)>,
}

impl ToolSettings {
    /// The names of the providers occur once each.
    pub open spec fn wf(self) -> bool {
        forall|i: int, j: int|
            0 <= i < j < self.provider@.len() ==> #[trigger] self.provider@[i].0@
                != #[trigger] self.provider@[j].0@
    }

    /// The providers that are switched on, in the order they are configured:
    /// these are the ones that get loaded into the toolbox.
    pub fn enabled_providers(&self) -> (r: Vec<(String, ToolSpec)>)
        ensures
            r@.map_values(|p: (String, ToolSpec)| provider_view(p)) == self.provider@.filter(
                |p: (String, ToolSpec)| p.1.is_enabled(),
            ).map_values(|p: (String, ToolSpec)| provider_view(p)),
    {
        let ghost f = |p: (String, ToolSpec)| p.1.is_enabled();
        let ghost g = |p: (String, ToolSpec)| provider_view(p);
        let mut out: Vec<(String, ToolSpec)> = Vec::new();
        let mut i: usize = 0;
        while i < self.provider.len()
            invariant
                i <= self.provider@.len(),
                f == (|p: (String, ToolSpec)| p.1.is_enabled()),
                g == (|p: (String, ToolSpec)| provider_view(p)),
                out@.map_values(g) == self.provider@.take(i as int).filter(f).map_values(g),
            decreases self.provider@.len() - i,
        {
            let item = &self.provider[i];
            let ghost pre = self.provider@.take(i as int);
            proof {
                assert(self.provider@.take(i as int + 1) == pre.push(self.provider@[i as int]));
                pre.lemma_filter_push(self.provider@[i as int], f);
            }
            let ghost before = out@;
            if item.1.enabled() {
                let name = item.0.clone();
                let spec = item.1.duplicate();
                out.push((name, spec));
                proof {
                    assert(out@ == before.push((name, spec)));
                    assert(g((name, spec)) == g(self.provider@[i as int]));
                    assert(out@.map_values(g) =~= before.map_values(g).push(g(self.provider@[i as int])));
                    assert(pre.filter(f).push(self.provider@[i as int]).map_values(g) =~= pre.filter(
                        f,
                    ).map_values(g).push(g(self.provider@[i as int])));
                }
            }
            i += 1;
        }
        assert(self.provider@.take(self.provider@.len() as int) == self.provider@);
        out
    }
}

/// The value of a named provider.
pub open spec fn provider_view(p: (String, ToolSpec)) -> (Seq<char>, ToolSpecView) {
    (p.0@, p.1@)
}

impl Default for ToolSettings {
    fn default() -> (r: Self)
        ensures
            r.provider@.len() == 0,
            r.toolset@.len() == 0,
    {
        ToolSettings { provider: Vec::new(), toolset: Vec::new() }
    }
}

} // verus!

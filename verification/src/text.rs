//! Splitting texts into lists: at a separator, or into words.
use std::sync::Arc;
use vstd::prelude::*;

use crate::nodes::{Text, TextSplit};
use crate::utils::{chars_of, push_char, text_of};
use crate::values::FlowValue;

verus! {

/// Whether a character is white space (the Unicode `White_Space` property,
/// as `char::is_whitespace` has it).
pub open spec fn is_white(c: char) -> bool {
    ||| c == '\t'
    ||| c == '\n'
    ||| c == '\u{0B}'
    ||| c == '\u{0C}'
    ||| c == '\r'
    ||| c == ' '
    ||| c == '\u{85}'
    ||| c == '\u{A0}'
    ||| c == '\u{1680}'
    ||| ('\u{2000}' <= c && c <= '\u{200A}')
    ||| c == '\u{2028}'
    ||| c == '\u{2029}'
    ||| c == '\u{202F}'
    ||| c == '\u{205F}'
    ||| c == '\u{3000}'
}

/// Whether a character is white space.
pub fn is_white_space(c: char) -> (r: bool)
    ensures
        r == is_white(c),
{
    c == '\t' || c == '\n' || c == '\u{0B}' || c == '\u{0C}' || c == '\r' || c == ' ' || c == '\u{85}'
        || c == '\u{A0}' || c == '\u{1680}' || ('\u{2000}' <= c && c <= '\u{200A}') || c == '\u{2028}'
        || c == '\u{2029}' || c == '\u{202F}' || c == '\u{205F}' || c == '\u{3000}'
}

/// A text without its leading white space.
pub open spec fn trim_white_start(s: Seq<char>) -> Seq<char>
    decreases s.len(),
{
    if s.len() > 0 && is_white(s[0]) {
        trim_white_start(s.drop_first())
    } else {
        s
    }
}

/// A text without its trailing white space.
pub open spec fn trim_white_end(s: Seq<char>) -> Seq<char>
    decreases s.len(),
{
    if s.len() > 0 && is_white(s.last()) {
        trim_white_end(s.drop_last())
    } else {
        s
    }
}

/// A text without white space at either end.
pub open spec fn trim_white(s: Seq<char>) -> Seq<char> {
    trim_white_end(trim_white_start(s))
}

/// Whether `p` occurs in `s` at `i`.
pub open spec fn occurs_at(s: Seq<char>, p: Seq<char>, i: int) -> bool {
    0 <= i && i + p.len() <= s.len() && s.subrange(i, i + p.len()) == p
}

/// The pieces of `s` between the occurrences of `p`, scanning from `i` with
/// the current piece starting at `seg`: each occurrence, taken left to right
/// without overlap, ends a piece.
pub open spec fn pieces(s: Seq<char>, p: Seq<char>, seg: int, i: int) -> Seq<Seq<char>>
    decreases s.len() - i,
{
    if p.len() == 0 || i + p.len() > s.len() {
        seq![s.subrange(seg, s.len() as int)]
    } else if occurs_at(s, p, i) {
        seq![s.subrange(seg, i)] + pieces(s, p, i + p.len(), i + p.len())
    } else {
        pieces(s, p, seg, i + 1)
    }
}

/// The pieces of `s` between the occurrences of the separator `p`.
pub open spec fn split_on(s: Seq<char>, p: Seq<char>) -> Seq<Seq<char>> {
    pieces(s, p, 0, 0)
}

/// The words of `s` from `i` on, the current word starting at `start` if
/// one has started: the maximal runs of characters that are not white space.
pub open spec fn words_from(s: Seq<char>, start: Option<int>, i: int) -> Seq<Seq<char>>
    decreases s.len() - i,
{
    if i >= s.len() {
        match start {
            Some(b) => seq![s.subrange(b, s.len() as int)],
            None => Seq::empty(),
        }
    } else if is_white(s[i]) {
        match start {
            Some(b) => seq![s.subrange(b, i)] + words_from(s, None, i + 1),
            None => words_from(s, None, i + 1),
        }
    } else {
        match start {
            Some(b) => words_from(s, Some(b), i + 1),
            None => words_from(s, Some(i), i + 1),
        }
    }
}

/// The words of a text.
pub open spec fn words(s: Seq<char>) -> Seq<Seq<char>> {
    words_from(s, None, 0)
}

/// The non-empty pieces, each trimmed of white space.
pub open spec fn trimmed_pieces(v: Seq<Seq<char>>) -> Seq<Seq<char>> {
    v.filter(|x: Seq<char>| x.len() > 0).map_values(|x: Seq<char>| trim_white(x))
}

/// The separator of each way of splitting by a separator.
pub open spec fn separator(d: TextSplit) -> Seq<char> {
    match d {
        TextSplit::Lines => seq!['\n'],
        TextSplit::Paragraphs => seq!['\n', '\n'],
        TextSplit::Documents => seq!['\n', '-', '-', '-', '\n'],
        TextSplit::Words => Seq::empty(),
    }
}

/// The list a text splits into: the words, or the non-empty pieces between
/// separators, trimmed.
pub open spec fn split_text_spec(s: Seq<char>, d: TextSplit) -> Seq<Seq<char>> {
    match d {
        TextSplit::Words => words(s),
        _ => trimmed_pieces(split_on(s, separator(d))),
    }
}

/// The views of some strings.
pub open spec fn texts_view(v: Seq<String>) -> Seq<Seq<char>> {
    v.map_values(|x: String| x@)
}

/// Removes the white space at either end of the characters `from..to`.
fn trim_range(cs: &Vec<char>, from: usize, to: usize) -> (r: String)
    requires
        from <= to <= cs@.len(),
    ensures
        r@ == trim_white(cs@.subrange(from as int, to as int)),
{
    let mut i: usize = from;
    while i < to && is_white_space(cs[i])
        invariant
            from <= i <= to,
            to <= cs@.len(),
            trim_white_start(cs@.subrange(i as int, to as int)) == trim_white_start(
                cs@.subrange(from as int, to as int),
            ),
        decreases to - i,
    {
        assert(cs@.subrange(i as int, to as int).drop_first() =~= cs@.subrange(i + 1, to as int));
        i += 1;
    }
    assert(trim_white_start(cs@.subrange(i as int, to as int)) == cs@.subrange(i as int, to as int));
    let mut j: usize = to;
    while j > i && is_white_space(cs[j - 1])
        invariant
            from <= i <= j <= to,
            to <= cs@.len(),
            trim_white_end(cs@.subrange(i as int, j as int)) == trim_white_end(cs@.subrange(i as int, to as int)),
        decreases j,
    {
        assert(cs@.subrange(i as int, j as int).drop_last() =~= cs@.subrange(i as int, j - 1));
        j -= 1;
    }
    assert(trim_white_end(cs@.subrange(i as int, j as int)) == cs@.subrange(i as int, j as int));
    text_of(cs, i, j)
}

/// Whether the separator occurs in the characters at `i`.
fn occurs(cs: &Vec<char>, p: &Vec<char>, i: usize) -> (r: bool)
    ensures
        r == occurs_at(cs@, p@, i as int),
{
    let end = cs.len();
    if p.len() > end || i > end - p.len() {
        return false;
    }
    let mut k: usize = 0;
    while k < p.len()
        invariant
            k <= p@.len(),
            end == cs@.len(),
            i + p@.len() <= end,
            forall|m: int| 0 <= m < k ==> cs@[i + m] == p@[m],
        decreases p@.len() - k,
    {
        if cs[i + k] != p[k] {
            assert(cs@.subrange(i as int, i + p@.len())[k as int] != p@[k as int]);
            return false;
        }
        k += 1;
    }
    assert(cs@.subrange(i as int, i + p@.len()) =~= p@);
    true
}

/// Lemma: filtering and trimming one more piece.
proof fn lemma_trimmed_push(v: Seq<Seq<char>>, x: Seq<char>)
    ensures
        trimmed_pieces(v.push(x)) == if x.len() > 0 {
            trimmed_pieces(v).push(trim_white(x))
        } else {
            trimmed_pieces(v)
        },
{
    let f = |x: Seq<char>| x.len() > 0;
    v.lemma_filter_push(x, f);
    if x.len() > 0 {
        assert(v.push(x).filter(f) == v.filter(f).push(x));
        assert(v.filter(f).push(x).map_values(|x: Seq<char>| trim_white(x)) =~= v.filter(f).map_values(
            |x: Seq<char>| trim_white(x),
        ).push(trim_white(x)));
    }
}

/// The non-empty pieces of a text between occurrences of a separator, each
/// trimmed of white space.
fn split_trimmed(cs: &Vec<char>, p: &Vec<char>) -> (r: Vec<String>)
    requires
        p@.len() > 0,
    ensures
        texts_view(r@) == trimmed_pieces(split_on(cs@, p@)),
{
    let n = cs.len();
    let m = p.len();
    let mut out: Vec<String> = Vec::new();
    let ghost mut done: Seq<Seq<char>> = Seq::empty();
    let mut seg: usize = 0;
    let mut i: usize = 0;
    assert(texts_view(out@) =~= trimmed_pieces(done));
    while m <= n - i
        invariant
            n == cs@.len(),
            m == p@.len(),
            m > 0,
            seg <= i <= n,
            done + pieces(cs@, p@, seg as int, i as int) == split_on(cs@, p@),
            texts_view(out@) == trimmed_pieces(done),
        decreases n - i,
    {
        if occurs(cs, p, i) {
            let ghost piece = cs@.subrange(seg as int, i as int);
            if seg < i {
                let t = trim_range(cs, seg, i);
                let ghost before = out@;
                out.push(t);
                proof {
                    assert(texts_view(out@) =~= texts_view(before).push(t@));
                }
            }
            proof {
                lemma_trimmed_push(done, piece);
                assert(seq![piece] + pieces(cs@, p@, i + m, i + m) == pieces(cs@, p@, seg as int, i as int));
                assert(done + pieces(cs@, p@, seg as int, i as int) =~= done.push(piece) + pieces(
                    cs@,
                    p@,
                    i + m,
                    i + m,
                ));
                done = done.push(piece);
            }
            seg = i + m;
            i = i + m;
        } else {
            i += 1;
        }
    }
    let ghost piece = cs@.subrange(seg as int, n as int);
    if seg < n {
        let t = trim_range(cs, seg, n);
        let ghost before = out@;
        out.push(t);
        proof {
            assert(texts_view(out@) =~= texts_view(before).push(t@));
        }
    }
    proof {
        lemma_trimmed_push(done, piece);
        assert(pieces(cs@, p@, seg as int, i as int) == seq![piece]);
        assert(done + seq![piece] =~= done.push(piece));
    }
    out
}

/// The pieces of a text between occurrences of a separator.
pub fn split_raw(cs: &Vec<char>, p: &Vec<char>) -> (r: Vec<String>)
    requires
        p@.len() > 0,
    ensures
        texts_view(r@) == split_on(cs@, p@),
{
    let n = cs.len();
    let m = p.len();
    let mut out: Vec<String> = Vec::new();
    let mut seg: usize = 0;
    let mut i: usize = 0;
    assert(texts_view(out@) =~= Seq::<Seq<char>>::empty());
    while m <= n - i
        invariant
            n == cs@.len(),
            m == p@.len(),
            m > 0,
            seg <= i <= n,
            texts_view(out@) + pieces(cs@, p@, seg as int, i as int) == split_on(cs@, p@),
        decreases n - i,
    {
        if occurs(cs, p, i) {
            let t = text_of(cs, seg, i);
            let ghost before = out@;
            out.push(t);
            proof {
                assert(texts_view(out@) =~= texts_view(before).push(t@));
                assert(seq![t@] + pieces(cs@, p@, i + m, i + m) == pieces(cs@, p@, seg as int, i as int));
                assert(texts_view(before) + pieces(cs@, p@, seg as int, i as int) =~= texts_view(out@)
                    + pieces(cs@, p@, i + m, i + m));
            }
            seg = i + m;
            i = i + m;
        } else {
            i += 1;
        }
    }
    let t = text_of(cs, seg, n);
    let ghost before = out@;
    out.push(t);
    proof {
        assert(texts_view(out@) =~= texts_view(before).push(t@));
        assert(pieces(cs@, p@, seg as int, i as int) == seq![t@]);
        assert(texts_view(before) + seq![t@] =~= texts_view(out@));
    }
    out
}

/// A text without white space at either end.
pub fn trim_text(s: &str) -> (r: String)
    ensures
        r@ == trim_white(s@),
{
    let cs = chars_of(s);
    assert(cs@.subrange(0, cs@.len() as int) =~= cs@);
    trim_range(&cs, 0, cs.len())
}

/// The words of a text.
fn split_words(cs: &Vec<char>) -> (r: Vec<String>)
    ensures
        texts_view(r@) == words(cs@),
{
    let n = cs.len();
    let mut out: Vec<String> = Vec::new();
    let ghost mut done: Seq<Seq<char>> = Seq::empty();
    let mut start: Option<usize> = None;
    let mut i: usize = 0;
    assert(texts_view(out@) =~= done);
    while i < n
        invariant
            n == cs@.len(),
            i <= n,
            start matches Some(b) ==> b < i,
            done + words_from(
                cs@,
                match start {
                    Some(b) => Some(b as int),
                    None => None,
                },
                i as int,
            ) == words(cs@),
            texts_view(out@) == done,
        decreases n - i,
    {
        if is_white_space(cs[i]) {
            match start {
                Some(b) => {
                    let w = text_of(cs, b, i);
                    let ghost before = out@;
                    out.push(w);
                    proof {
                        assert(texts_view(out@) =~= texts_view(before).push(w@));
                        assert(done + words_from(cs@, Some(b as int), i as int) =~= done.push(w@) + words_from(
                            cs@,
                            None,
                            i + 1,
                        ));
                        done = done.push(w@);
                    }
                },
                None => {},
            }
            start = None;
        } else {
            match start {
                Some(_) => {},
                None => {
                    start = Some(i);
                },
            }
        }
        i += 1;
    }
    match start {
        Some(b) => {
            let w = text_of(cs, b, n);
            let ghost before = out@;
            out.push(w);
            proof {
                assert(texts_view(out@) =~= texts_view(before).push(w@));
                assert(done + words_from(cs@, Some(b as int), n as int) =~= done.push(w@));
            }
        },
        None => {
            assert(done + words_from(cs@, None, n as int) =~= done);
        },
    }
    out
}

/// Splits a text into a list (see [`split_text_spec`]).
pub fn split_text(text: &str, delim: TextSplit) -> (r: Vec<String>)
    ensures
        texts_view(r@) == split_text_spec(text@, delim),
{
    let cs = chars_of(text);
    match delim {
        TextSplit::Words => split_words(&cs),
        TextSplit::Lines => {
            let p = vec!['\n'];
            assert(p@ == separator(delim));
            split_trimmed(&cs, &p)
        },
        TextSplit::Paragraphs => {
            let p = vec!['\n', '\n'];
            assert(p@ == separator(delim));
            split_trimmed(&cs, &p)
        },
        TextSplit::Documents => {
            let p = vec!['\n', '-', '-', '-', '\n'];
            assert(p@ == separator(delim));
            split_trimmed(&cs, &p)
        },
    }
}

/// The value a text node gives for a text: the text itself, or the list it
/// splits into.
pub open spec fn text_output(s: Seq<char>, delim: Option<TextSplit>) -> Seq<Seq<char>> {
    match delim {
        None => seq![s],
        Some(d) => split_text_spec(s, d),
    }
}

/// Which text the text node works on: the text on its input, the text of
/// the message on its input (which the host reads out of the message), or,
/// with nothing on the input, its own text.
pub open spec fn text_source(input: Option<FlowValue>, own: Seq<char>, message_text: Seq<char>) -> Seq<char> {
    match input {
        Some(FlowValue::Text(t)) => t@,
        Some(FlowValue::Message(_)) => message_text,
        _ => own,
    }
}

impl Text {
    /// The text node's output: its text (see [`text_source`]) as it is, or
    /// split into a list by its delimiter.
    pub fn execute(&self, inputs: &Vec<Option<FlowValue>>, message_text: &str) -> (r: Vec<FlowValue>)
        requires
            inputs@.len() >= 1,
            inputs@[0] matches Some(v) ==> (v is Text || v is Message),
        ensures
            r@.len() == 1,
            ({
                let s = text_source(inputs@[0], self.value@, message_text@);
                match self.delim {
                    None => r@[0] matches FlowValue::Text(t) && t@ == s,
                    Some(d) => r@[0] matches FlowValue::TextList(l) && texts_view(l@) == split_text_spec(s, d),
                }
            }),
    {
        let text: String = match &inputs[0] {
            Some(FlowValue::Text(t)) => (**t).clone(),
            Some(FlowValue::Message(_)) => message_text.to_owned(),
            _ => (*self.value).clone(),
        };
        match self.delim {
            None => vec![FlowValue::Text(Arc::new(text))],
            Some(d) => vec![FlowValue::TextList(Arc::new(split_text(text.as_str(), d)))],
        }
    }
}

/// `s` from `i` on with each occurrence of `p` (taken left to right, without
/// overlap) replaced by `q`.
pub open spec fn replaced_from(s: Seq<char>, p: Seq<char>, q: Seq<char>, i: int) -> Seq<char>
    decreases s.len() - i,
{
    if p.len() == 0 || i < 0 || i + p.len() > s.len() {
        s.subrange(i, s.len() as int)
    } else if occurs_at(s, p, i) {
        q + replaced_from(s, p, q, i + p.len())
    } else {
        seq![s[i]] + replaced_from(s, p, q, i + 1)
    }
}

/// `s` with each occurrence of `p` replaced by `q`, as `str::replace` does.
pub open spec fn replaced(s: Seq<char>, p: Seq<char>, q: Seq<char>) -> Seq<char> {
    replaced_from(s, p, q, 0)
}

/// Replaces each occurrence of `p` in `s` by `q`, left to right without
/// overlap.
pub fn replace_text(s: &str, p: &str, q: &str) -> (r: String)
    requires
        p@.len() > 0,
    ensures
        r@ == replaced(s@, p@, q@),
{
    let cs = chars_of(s);
    let ps = chars_of(p);
    let mut out = String::new();
    let mut i: usize = 0;
    while i < cs.len()
        invariant
            i <= cs@.len(),
            cs@ == s@,
            ps@ == p@,
            ps@.len() > 0,
            out@ + replaced_from(cs@, ps@, q@, i as int) == replaced(cs@, ps@, q@),
        decreases cs@.len() - i,
    {
        if occurs(&cs, &ps, i) {
            let ghost before = out@;
            out.append(q);
            proof {
                assert(before + replaced_from(cs@, ps@, q@, i as int) == before + (q@ + replaced_from(
                    cs@,
                    ps@,
                    q@,
                    i + ps@.len(),
                )));
                assert(before + (q@ + replaced_from(cs@, ps@, q@, i + ps@.len())) =~= out@ + replaced_from(
                    cs@,
                    ps@,
                    q@,
                    i + ps@.len(),
                ));
            }
            i += ps.len();
        } else {
            let ghost before = out@;
            push_char(&mut out, cs[i]);
            proof {
                let rest = replaced_from(cs@, ps@, q@, i as int + 1);
                if i + ps@.len() > cs@.len() {
                    assert(cs@.subrange(i as int, cs@.len() as int) =~= seq![cs@[i as int]] + cs@.subrange(
                        i as int + 1,
                        cs@.len() as int,
                    ));
                }
                assert(replaced_from(cs@, ps@, q@, i as int) == seq![cs@[i as int]] + rest);
                assert(before + (seq![cs@[i as int]] + rest) =~= out@ + rest);
            }
            i += 1;
        }
    }
    proof {
        assert(replaced_from(cs@, ps@, q@, i as int) =~= Seq::<char>::empty());
        assert(out@ + Seq::<char>::empty() =~= out@);
    }
    out
}

} // verus!

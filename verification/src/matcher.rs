//! Pattern matching, done by the `regex` crate.
//!
//! What a pattern matches in a text is not restated here: it is named, and the
//! functions of this crate that rewrite a text are specified over the named
//! matches. Only what the crate documents of every match is relied on: spans
//! lie on character boundaries and follow one another without overlap.

use vstd::prelude::*;
use crate::offsets::{is_boundary, TextIndex};

verus! {

/// `regex::Error`: why a pattern does not compile. It is carried from the
/// matcher to the error of the transformation and never looked into.
#[verifier::external_type_specification]
#[verifier::external_body]
pub struct ExRegexError(regex::Error);

/// One match of a pattern: its byte span in the text, and the text that is to
/// stand in its place.
#[derive(Debug, Clone)]
pub struct FoundMatch {
    pub start: usize,
    pub end: usize,
    pub replacement: String,
}

/// A match as the contracts see it.
pub struct MatchView {
    pub start: int,
    pub end: int,
    pub replacement: Seq<char>,
}

impl View for FoundMatch {
    type V = MatchView;

    open spec fn view(&self) -> MatchView {
        MatchView {
            start: self.start as int,
            end: self.end as int,
            replacement: self.replacement@,
        }
    }
}

/// The views of a sequence of matches.
pub open spec fn match_views(matches: Seq<FoundMatch>) -> Seq<MatchView> {
    Seq::new(matches.len(), |i: int| matches[i]@)
}

/// The byte spans, in order, of the successive non-overlapping matches of
/// `pattern` in `text`; `None` where `pattern` is not a valid pattern.
pub uninterp spec fn pattern_spans(pattern: Seq<char>, case_insensitive: bool, text: Seq<char>)
    -> Option<Seq<(usize, usize)>>;

/// The successive non-overlapping matches of `pattern` in `text`, each as its
/// byte span and `template` expanded with the match's capture groups; `None`
/// where `pattern` is not a valid pattern.
pub uninterp spec fn pattern_captures(pattern: Seq<char>, text: Seq<char>, template: Seq<char>)
    -> Option<Seq<MatchView>>;

/// A character that has a meaning of its own in a pattern.
pub open spec fn is_meta(c: char) -> bool {
    c == '\\' || c == '.' || c == '+' || c == '*' || c == '?' || c == '(' || c == ')' || c == '|'
        || c == '[' || c == ']' || c == '{' || c == '}' || c == '^' || c == '$' || c == '#' || c
        == '&' || c == '-' || c == '~'
}

/// The pattern that matches exactly the text `literal`: `literal` with a
/// backslash before every character that has a meaning of its own in a
/// pattern.
pub open spec fn escaped_pattern(literal: Seq<char>) -> Seq<char>
    decreases literal.len(),
{
    if literal.len() == 0 {
        Seq::empty()
    } else if is_meta(literal.last()) {
        escaped_pattern(literal.drop_last()).push('\\').push(literal.last())
    } else {
        escaped_pattern(literal.drop_last()).push(literal.last())
    }
}

/// A span runs forward between two character boundaries of `text`.
pub open spec fn span_fits(text: Seq<char>, start: int, end: int) -> bool {
    start <= end && is_boundary(text, start) && is_boundary(text, end)
}

/// Spans as a matcher reports them: each between character boundaries, each
/// ending before the next begins.
pub open spec fn spans_in_order(text: Seq<char>, spans: Seq<(usize, usize)>) -> bool {
    &&& forall|i: int|
        0 <= i < spans.len() ==> span_fits(text, (#[trigger] spans[i]).0 as int, spans[i].1 as int)
    &&& forall|i: int, j: int|
        0 <= i < j < spans.len() ==> (#[trigger] spans[i]).1 <= (#[trigger] spans[j]).0
}

/// The spans of a sequence of matches.
pub open spec fn spans_of(matches: Seq<FoundMatch>) -> Seq<(usize, usize)> {
    Seq::new(matches.len(), |i: int| (matches[i].start, matches[i].end))
}

/// Whether `spans` are spans of `text` as a matcher reports them: each
/// between character boundaries, each ending before the next begins.
pub fn spans_fit_in_order(text: &str, spans: &Vec<(usize, usize)>) -> (r: bool)
    ensures
        r == spans_in_order(text@, spans@),
{
    let index = TextIndex::new(text);
    let mut last_end: usize = 0;
    let mut i: usize = 0;
    while i < spans.len()
        invariant
            i <= spans.len(),
            index.wf(),
            index.chars@ == text@,
            forall|k: int|
                0 <= k < i ==> span_fits(text@, (#[trigger] spans@[k]).0 as int, spans@[k].1 as int),
            forall|a: int, b: int|
                0 <= a < b < i ==> (#[trigger] spans@[a]).1 <= (#[trigger] spans@[b]).0,
            i > 0 ==> last_end == spans@[i - 1].1,
        decreases spans.len() - i,
    {
        let span = spans[i];
        if span.0 > span.1 || index.char_at_offset(span.0).is_none() || index.char_at_offset(
            span.1,
        ).is_none() {
            assert(!span_fits(text@, spans@[i as int].0 as int, spans@[i as int].1 as int));
            return false;
        }
        if i > 0 && span.0 < last_end {
            assert(spans@[i - 1].1 > spans@[i as int].0);
            return false;
        }
        last_end = span.1;
        i += 1;
    }
    true
}

/// Whether `matches` are matches of `text` as a matcher reports them: their
/// spans lie between character boundaries, each ending before the next
/// begins.
pub fn matches_fit_in_order(text: &str, matches: &Vec<FoundMatch>) -> (r: bool)
    ensures
        r == spans_in_order(text@, spans_of(matches@)),
{
    let mut spans: Vec<(usize, usize)> = Vec::new();
    let mut i: usize = 0;
    while i < matches.len()
        invariant
            i <= matches.len(),
            spans@.len() == i,
            forall|k: int|
                0 <= k < i ==> #[trigger] spans@[k] == (matches@[k].start, matches@[k].end),
        decreases matches.len() - i,
    {
        spans.push((matches[i].start, matches[i].end));
        i += 1;
    }
    assert(spans@ =~= spans_of(matches@));
    spans_fit_in_order(text, &spans)
}

/// Compiles `pattern` with `RegexBuilder` (case-insensitive on request) and
/// collects the span of every match that `Regex::find_iter` yields in `text`.
/// The crate documents that the matches are successive and non-overlapping and
/// that both ends of a match fall on UTF-8 code point boundaries.
#[verifier::external_body]
pub(crate) fn find_spans(pattern: &str, case_insensitive: bool, text: &str) -> (r: Result<
    Vec<(usize, usize)>,
    regex::Error,
>)
    ensures
        match r {
            Ok(spans) => pattern_spans(pattern@, case_insensitive, text@) == Some(spans@)
                && spans_in_order(text@, spans@),
            Err(_) => pattern_spans(pattern@, case_insensitive, text@) is None,
        },
{
    let re = regex::RegexBuilder::new(pattern).case_insensitive(case_insensitive).build()?;
    Ok(re.find_iter(text).map(|m| (m.start(), m.end())).collect())
}

/// Compiles `pattern` with `Regex::new` and, for every match that
/// `Regex::captures_iter` yields in `text`, records the span of the whole match
/// and what `Captures::expand` makes of `template`. The same is documented of
/// these matches as of those of `find_iter`.
#[verifier::external_body]
pub(crate) fn find_captures(pattern: &str, text: &str, template: &str) -> (r: Result<
    Vec<FoundMatch>,
    regex::Error,
>)
    ensures
        match r {
            Ok(found) => pattern_captures(pattern@, text@, template@) == Some(match_views(found@))
                && spans_in_order(text@, spans_of(found@)),
            Err(_) => pattern_captures(pattern@, text@, template@) is None,
        },
{
    let re = regex::Regex::new(pattern)?;
    let mut found = Vec::new();
    for caps in re.captures_iter(text) {
        let whole = caps.get_match();
        let mut replacement = String::new();
        caps.expand(template, &mut replacement);
        found.push(FoundMatch { start: whole.start(), end: whole.end(), replacement });
    }
    Ok(found)
}

/// `regex::escape` copies `literal` and puts a backslash before each of its
/// meta characters, which are the eighteen that `is_meta` lists.
#[verifier::external_body]
pub(crate) fn escape_literal(literal: &str) -> (r: String)
    ensures
        r@ == escaped_pattern(literal@),
{
    regex::escape(literal)
}

/// The message of a pattern error, as its `Display` writes it. Nothing is
/// claimed of the wording.
#[verifier::external_body]
pub(crate) fn pattern_error_text(error: &regex::Error) -> String {
    format!("{error}")
}

} // verus!

//! The text transformations: pattern replacement, token renaming and
//! marker-delimited block replacement.
//!
//! Each transformation computes a candidate new text from a decoded text and
//! its options. A transformation that finds nothing to do says so by giving no
//! new text.

use vstd::prelude::*;
use vstd::string::StringExecFns;

use crate::casing::{adjust_case, case_kind_of, in_case};
use crate::encoding::DecodedText;
use crate::lineindex::{line_number, LineIndex};
use crate::matcher::{
    escape_literal, escaped_pattern, find_captures, find_spans, match_views, pattern_captures,
    pattern_error_text, pattern_spans, spans_in_order, spans_of, FoundMatch, MatchView,
};
use crate::numbers::{decimal, decimal_chars};
use crate::offsets::{byte_offset, char_index, lemma_byte_offset_increases, TextIndex};
use crate::text::{chars_of, copy_range, push_all, string_of};

verus! {

/// How a block is written between its markers.
#[derive(Debug, Clone, Copy, PartialEq, Eq)]
pub enum BlockMode {
    /// Only an empty region may be filled.
    Insert,
    /// Whatever the region holds is replaced.
    Replace,
}

impl BlockMode {
    /// The mode named `s`, in any case: `insert` or `replace`.
    pub fn from_str(s: &str) -> (r: Option<Self>)
        ensures
            r == if crate::casing::lower_text(s@) == "insert"@ {
                Some(BlockMode::Insert)
            } else if crate::casing::lower_text(s@) == "replace"@ {
                Some(BlockMode::Replace)
            } else {
                None
            },
    {
        let lowered = s.to_lowercase();
        let chars = chars_of(lowered.as_str());
        if crate::text::same_chars(chars.as_slice(), chars_of("insert").as_slice()) {
            Some(BlockMode::Insert)
        } else if crate::text::same_chars(chars.as_slice(), chars_of("replace").as_slice()) {
            Some(BlockMode::Replace)
        } else {
            None
        }
    }
}

/// Options of a pattern replacement.
#[derive(Debug, Clone)]
pub struct ReplaceOptions {
    pub pattern: String,
    pub replacement: String,
    pub allow_captures: bool,
    pub count: Option<usize>,
    pub expect: Option<usize>,
    pub after_line: Option<usize>,
}

/// Options of a block replacement.
#[derive(Debug, Clone)]
pub struct BlockOptions {
    pub start_marker: String,
    pub end_marker: String,
    pub mode: BlockMode,
    pub body: String,
}

/// Options of a token rename.
#[derive(Debug, Clone)]
pub struct RenameOptions {
    pub from: String,
    pub to: String,
    pub word_boundary: bool,
    pub case_aware: bool,
}

/// Why a transformation failed.
#[derive(Debug, Clone)]
pub enum TransformError {
    /// The pattern is not a valid pattern; the matcher's message is attached.
    InvalidPattern(String),
    /// The number of replacements made is not the number expected.
    CountMismatch { expected: usize, found: usize },
    /// The start marker does not occur in the text.
    StartMarkerNotFound(String),
    /// The end marker does not occur after the start marker.
    EndMarkerNotFound(String),
    /// Insert mode met a region that holds more than white space.
    RegionNotEmpty,
}

impl TransformError {
    /// The message for the user.
    pub open spec fn message_spec(&self) -> Seq<char> {
        match self {
            TransformError::InvalidPattern(detail) => "invalid pattern: "@ + detail@,
            TransformError::CountMismatch { expected, found } => "expected "@ + decimal(
                *expected as nat,
            ) + " matches but found "@ + decimal(*found as nat),
            TransformError::StartMarkerNotFound(marker) => "start marker '"@ + marker@
                + "' not found"@,
            TransformError::EndMarkerNotFound(marker) => "end marker '"@ + marker@
                + "' not found after start marker"@,
            TransformError::RegionNotEmpty =>
                "insert mode requires the block region to be empty"@,
        }
    }

    /// The message for the user.
    pub fn message(&self) -> (r: String)
        ensures
            r@ == self.message_spec(),
    {
        match self {
            TransformError::InvalidPattern(detail) => {
                let mut out = "invalid pattern: ".to_owned();
                out.append(detail.as_str());
                out
            },
            TransformError::CountMismatch { expected, found } => {
                let mut out = "expected ".to_owned();
                let first = string_of(decimal_chars(*expected as u128).as_slice());
                out.append(first.as_str());
                out.append(" matches but found ");
                let second = string_of(decimal_chars(*found as u128).as_slice());
                out.append(second.as_str());
                out
            },
            TransformError::StartMarkerNotFound(marker) => {
                let mut out = "start marker '".to_owned();
                out.append(marker.as_str());
                out.append("' not found");
                out
            },
            TransformError::EndMarkerNotFound(marker) => {
                let mut out = "end marker '".to_owned();
                out.append(marker.as_str());
                out.append("' not found after start marker");
                out
            },
            TransformError::RegionNotEmpty => "insert mode requires the block region to be empty"
                .to_owned(),
        }
    }
}

/// What a replacement did.
#[derive(Debug, Clone)]
pub struct ReplaceOutcome {
    /// The new text; `None` where nothing was replaced.
    pub new_text: Option<String>,
    /// How many matches were replaced.
    pub replacements: usize,
    /// How many matches were passed over because they start at or before the
    /// line given as `after_line`.
    pub filtered_by_line: usize,
}

impl ReplaceOutcome {
    /// The note for the user where matches exist but none was replaced
    /// because all of them start at or before the line `after_line`.
    pub open spec fn filtered_text(&self, after_line: usize) -> Seq<char> {
        "no matches after line "@ + decimal(after_line as nat) + "; "@ + decimal(
            self.filtered_by_line as nat,
        ) + " occurrence(s) were at or before that line"@
    }

    /// The note for the user where nothing was replaced although the pattern
    /// matches: the matches were passed over because of their line. `None`
    /// where something was replaced, and where the pattern matches nothing.
    pub fn filtered_note(&self, after_line: Option<usize>) -> (r: Option<String>)
        ensures
            match r {
                Some(note) => self.replacements == 0 && self.filtered_by_line > 0
                    && after_line is Some && note@ == self.filtered_text(after_line->0),
                None => self.replacements > 0 || self.filtered_by_line == 0 || after_line is None,
            },
    {
        match after_line {
            Some(limit) => {
                if self.replacements == 0 && self.filtered_by_line > 0 {
                    let mut note = "no matches after line ".to_owned();
                    note.append(string_of(decimal_chars(limit as u128).as_slice()).as_str());
                    note.append("; ");
                    note.append(
                        string_of(decimal_chars(self.filtered_by_line as u128).as_slice()).as_str(),
                    );
                    note.append(" occurrence(s) were at or before that line");
                    Some(note)
                } else {
                    None
                }
            },
            None => None,
        }
    }
}

/// The note for the user where a rename finds no occurrence of its token.
pub fn rename_miss_note(options: &RenameOptions) -> (r: String)
    ensures
        r@ == "rename: no matches for '"@ + options.from@ + if options.word_boundary {
            "' with word-boundary guard"@
        } else {
            "'"@
        },
{
    let mut note = "rename: no matches for '".to_owned();
    note.append(options.from.as_str());
    if options.word_boundary {
        note.append("' with word-boundary guard");
    } else {
        note.append("'");
    }
    note
}

/// A match may be replaced: it starts on a line after `after_line`.
pub open spec fn eligible(text: Seq<char>, m: MatchView, after_line: Option<usize>) -> bool {
    match after_line {
        Some(limit) => line_number(text, m.start) > limit,
        None => true,
    }
}

/// The matches that may be replaced, in order.
pub open spec fn eligible_matches(text: Seq<char>, ms: Seq<MatchView>, after_line: Option<usize>)
    -> Seq<MatchView> {
    ms.filter(|m: MatchView| eligible(text, m, after_line))
}

/// The first `count` of `ms`, all of them where no count is given.
pub open spec fn limited(ms: Seq<MatchView>, count: Option<usize>) -> Seq<MatchView> {
    match count {
        Some(limit) => if limit < ms.len() {
            ms.take(limit as int)
        } else {
            ms
        },
        None => ms,
    }
}

/// The matches that are replaced: the eligible ones, up to `count` of them.
pub open spec fn selected(
    text: Seq<char>,
    ms: Seq<MatchView>,
    count: Option<usize>,
    after_line: Option<usize>,
) -> Seq<MatchView> {
    limited(eligible_matches(text, ms, after_line), count)
}

/// The character index up to which `text` has been consumed once the matches
/// `taken` are replaced: the end of the last of them.
pub open spec fn cursor(text: Seq<char>, taken: Seq<MatchView>) -> int {
    if taken.len() == 0 {
        0
    } else {
        char_index(text, taken.last().end)
    }
}

/// The output up to the end of the last match of `taken`: for each match in
/// turn, the text between the previous match and this one, then this one's
/// replacement.
pub open spec fn rebuilt(text: Seq<char>, taken: Seq<MatchView>) -> Seq<char>
    decreases taken.len(),
{
    if taken.len() == 0 {
        Seq::empty()
    } else {
        rebuilt(text, taken.drop_last()) + text.subrange(
            cursor(text, taken.drop_last()),
            char_index(text, taken.last().start),
        ) + taken.last().replacement
    }
}

/// `text` with each match of `taken` replaced by its replacement.
pub open spec fn spliced(text: Seq<char>, taken: Seq<MatchView>) -> Seq<char> {
    rebuilt(text, taken) + text.skip(cursor(text, taken))
}

/// What `replace_matches` owes for the matches `ms`.
pub open spec fn replace_contract(
    text: Seq<char>,
    ms: Seq<MatchView>,
    count: Option<usize>,
    expect: Option<usize>,
    after_line: Option<usize>,
    r: Result<ReplaceOutcome, TransformError>,
) -> bool {
    let taken = selected(text, ms, count, after_line);
    let mismatch = expect is Some && expect->0 != taken.len();
    match r {
        Ok(out) => {
            &&& !mismatch
            &&& out.replacements == taken.len()
            &&& out.filtered_by_line == ms.len() - eligible_matches(text, ms, after_line).len()
            &&& match out.new_text {
                Some(new_text) => taken.len() > 0 && new_text@ == spliced(text, taken),
                None => taken.len() == 0,
            }
        },
        Err(TransformError::CountMismatch { expected, found }) => mismatch && expected == expect->0
            && found == taken.len(),
        Err(_) => false,
    }
}

proof fn lemma_eligible_step(text: Seq<char>, ms: Seq<MatchView>, after_line: Option<usize>, i: int)
    requires
        0 <= i < ms.len(),
    ensures
        eligible_matches(text, ms.take(i + 1), after_line) == if eligible(text, ms[i], after_line) {
            eligible_matches(text, ms.take(i), after_line).push(ms[i])
        } else {
            eligible_matches(text, ms.take(i), after_line)
        },
        eligible_matches(text, ms.take(i), after_line).len() <= i,
{
    reveal(Seq::filter);
    assert(ms.take(i + 1).drop_last() =~= ms.take(i));
    ms.take(i).lemma_filter_len(|m: MatchView| eligible(text, m, after_line));
}

proof fn lemma_eligible_none(text: Seq<char>, ms: Seq<MatchView>, after_line: Option<usize>)
    ensures
        eligible_matches(text, ms.take(0), after_line) == Seq::<MatchView>::empty(),
{
    reveal(Seq::filter);
    assert(ms.take(0) =~= Seq::<MatchView>::empty());
}

/// Replaces matches in `text`, scanning them left to right. A match is
/// eligible only if it starts on a line after `after_line`; eligible matches
/// are replaced until `count` have been. Where `expect` is given and differs
/// from the number replaced, the replacement fails, also where nothing was
/// replaced; otherwise there is no new text where nothing was replaced.
///
/// `matches` are matches as a pattern matcher reports them: byte spans between
/// character boundaries of `text`, in order and without overlap.
pub fn replace_matches(
    text: &str,
    matches: &Vec<FoundMatch>,
    count: Option<usize>,
    expect: Option<usize>,
    after_line: Option<usize>,
) -> (r: Result<ReplaceOutcome, TransformError>)
    requires
        spans_in_order(text@, spans_of(matches@)),
    ensures
        replace_contract(text@, match_views(matches@), count, expect, after_line, r),
{
    let index = TextIndex::new(text);
    let line_index: Option<LineIndex> = match after_line {
        Some(_) => Some(LineIndex::from_index(&index)),
        None => None,
    };
    let ghost ms = match_views(matches@);
    let ghost mut taken: Seq<MatchView> = Seq::empty();
    let mut output: Vec<char> = Vec::new();
    let mut last_end: usize = 0;
    let mut replacements: usize = 0;
    let mut filtered_by_line: usize = 0;
    let mut i: usize = 0;
    proof {
        lemma_eligible_none(text@, ms, after_line);
        assert(text@.take(0) =~= Seq::<char>::empty());
    }
    while i < matches.len()
        invariant
            i <= matches.len(),
            index.wf(),
            index.chars@ == text@,
            ms == match_views(matches@),
            spans_in_order(text@, spans_of(matches@)),
            after_line is Some ==> line_index is Some && line_index->0.starts()
                == crate::lineindex::line_starts(text@),
            taken == selected(text@, ms.take(i as int), count, after_line),
            replacements == taken.len(),
            replacements <= i,
            filtered_by_line == i - eligible_matches(text@, ms.take(i as int), after_line).len(),
            output@ == rebuilt(text@, taken),
            last_end == cursor(text@, taken),
            last_end <= text@.len(),
            forall|j: int|
                i <= j < matches.len() ==> byte_offset(text@, last_end as int) <= (
                #[trigger] matches@[j]).start,
        decreases matches.len() - i,
    {
        let m = &matches[i];
        proof {
            lemma_eligible_step(text@, ms, after_line, i as int);
            assert(ms[i as int] == m@);
            assert(spans_of(matches@)[i as int] == (m.start, m.end));
        }
        let ghost elig_before = eligible_matches(text@, ms.take(i as int), after_line);
        let is_eligible: bool = match (after_line, &line_index) {
            (Some(limit), Some(lines)) => lines.line_at(m.start) > limit,
            _ => true,
        };
        assert(is_eligible == eligible(text@, m@, after_line));
        let room: bool = match count {
            Some(limit) => replacements < limit,
            None => true,
        };
        if !is_eligible {
            filtered_by_line += 1;
        } else if room {
            let from = index.char_at_offset(m.start);
            let to = index.char_at_offset(m.end);
            match (from, to) {
                (Some(from), Some(to)) => {
                    proof {
                        if from < last_end {
                            lemma_byte_offset_increases(text@, from as int, last_end as int);
                        }
                        if to < from {
                            lemma_byte_offset_increases(text@, to as int, from as int);
                        }
                        assert(taken == elig_before);
                        assert(taken.push(m@).drop_last() =~= taken);
                        assert forall|j: int| i + 1 <= j < matches.len() implies byte_offset(
                            text@,
                            to as int,
                        ) <= (#[trigger] matches@[j]).start by {
                            assert(spans_of(matches@)[j] == (matches@[j].start, matches@[j].end));
                        }
                    }
                    let gap = copy_range(index.chars.as_slice(), last_end, from);
                    push_all(&mut output, gap.as_slice());
                    let replacement = chars_of(m.replacement.as_str());
                    push_all(&mut output, replacement.as_slice());
                    last_end = to;
                    replacements += 1;
                    proof {
                        taken = taken.push(m@);
                    }
                },
                _ => {
                    assert(false);
                },
            }
        } else {
            proof {
                let elig_after = elig_before.push(m@);
                assert(elig_after.take(count->0 as int) =~= elig_before.take(count->0 as int));
                assert(forall|j: int|
                    i + 1 <= j < matches.len() ==> byte_offset(text@, last_end as int) <= (
                    #[trigger] matches@[j]).start);
            }
        }
        i += 1;
    }
    proof {
        assert(ms.take(matches.len() as int) =~= ms);
    }
    if let Some(expected) = expect {
        if replacements != expected {
            return Err(TransformError::CountMismatch { expected, found: replacements });
        }
    }
    if replacements == 0 {
        return Ok(ReplaceOutcome { new_text: None, replacements, filtered_by_line });
    }
    let tail = copy_range(index.chars.as_slice(), last_end, index.chars.len());
    push_all(&mut output, tail.as_slice());
    Ok(
        ReplaceOutcome {
            new_text: Some(string_of(output.as_slice())),
            replacements,
            filtered_by_line,
        },
    )
}

/// Matches at `spans`, each to be replaced by `replacement`.
pub open spec fn literal_matches(spans: Seq<(usize, usize)>, replacement: Seq<char>) -> Seq<
    MatchView,
> {
    Seq::new(
        spans.len(),
        |i: int| MatchView { start: spans[i].0 as int, end: spans[i].1 as int, replacement },
    )
}

/// The matches that a replacement with `options` works on: those of the
/// pattern in `text`, each with the replacement text as given or, with
/// captures allowed, expanded for that match. `None` where the pattern is not
/// valid.
pub open spec fn replace_matches_for(options: ReplaceOptions, text: Seq<char>) -> Option<
    Seq<MatchView>,
> {
    if options.allow_captures {
        pattern_captures(options.pattern@, text, options.replacement@)
    } else {
        match pattern_spans(options.pattern@, false, text) {
            Some(spans) => Some(literal_matches(spans, options.replacement@)),
            None => None,
        }
    }
}

fn with_replacement(spans: &Vec<(usize, usize)>, replacement: &str) -> (out: Vec<FoundMatch>)
    ensures
        match_views(out@) == literal_matches(spans@, replacement@),
        spans_of(out@) == spans@,
{
    let mut out: Vec<FoundMatch> = Vec::new();
    let mut i: usize = 0;
    while i < spans.len()
        invariant
            i <= spans.len(),
            out.len() == i,
            forall|k: int|
                0 <= k < i ==> (#[trigger] out@[k]).start == spans@[k].0 && out@[k].end
                    == spans@[k].1 && out@[k].replacement@ == replacement@,
        decreases spans.len() - i,
    {
        let span = spans[i];
        out.push(FoundMatch { start: span.0, end: span.1, replacement: replacement.to_owned() });
        i += 1;
    }
    assert(match_views(out@) =~= literal_matches(spans@, replacement@));
    assert(spans_of(out@) =~= spans@);
    out
}

/// The options of the replacement that the command `cmd` asks for, with the
/// replacement text `replacement`. Where the pattern is taken literally its
/// meta characters are escaped and the replacement text is put in as it is;
/// else the pattern stands as given and the replacement text may refer to
/// capture groups.
pub fn build_replace_options(cmd: &crate::options::ReplaceCommand, replacement: &str) -> (r:
    ReplaceOptions)
    ensures
        r.pattern@ == if cmd.literal || !cmd.regex {
            escaped_pattern(cmd.pattern@)
        } else {
            cmd.pattern@
        },
        r.replacement@ == replacement@,
        r.allow_captures == !(cmd.literal || !cmd.regex),
        r.count == cmd.count,
        r.expect == cmd.expect,
        r.after_line == cmd.after_line,
{
    let literal = cmd.literal_mode();
    ReplaceOptions {
        pattern: if literal {
            escape_literal(cmd.pattern.as_str())
        } else {
            cmd.pattern.clone()
        },
        replacement: replacement.to_owned(),
        allow_captures: !literal,
        count: cmd.count,
        expect: cmd.expect,
        after_line: cmd.after_line,
    }
}

/// What `apply_replace` owes: the refusal of an invalid pattern, and for a
/// valid one what `replace_matches` owes for its matches.
pub open spec fn apply_replace_contract(
    text: Seq<char>,
    options: ReplaceOptions,
    r: Result<ReplaceOutcome, TransformError>,
) -> bool {
    match replace_matches_for(options, text) {
        Some(ms) => replace_contract(
            text,
            ms,
            options.count,
            options.expect,
            options.after_line,
            r,
        ),
        None => r matches Err(TransformError::InvalidPattern(_)),
    }
}

/// Replaces the matches of `options.pattern` in the decoded text. An invalid
/// pattern is refused; otherwise the matches are handled as `replace_matches`
/// handles them.
pub fn apply_replace(decoded: &DecodedText, options: &ReplaceOptions) -> (r: Result<
    ReplaceOutcome,
    TransformError,
>)
    ensures
        apply_replace_contract(decoded.text@, *options, r),
{
    let text = decoded.text.as_str();
    let found = if options.allow_captures {
        find_captures(options.pattern.as_str(), text, options.replacement.as_str())
    } else {
        match find_spans(options.pattern.as_str(), false, text) {
            Ok(spans) => Ok(with_replacement(&spans, options.replacement.as_str())),
            Err(error) => Err(error),
        }
    };
    match found {
        Ok(matches) => replace_matches(
            text,
            &matches,
            options.count,
            options.expect,
            options.after_line,
        ),
        Err(error) => Err(TransformError::InvalidPattern(pattern_error_text(&error))),
    }
}

/// The pattern that finds the token `from`: the token itself, taken
/// literally, between word boundaries where they are asked for.
pub open spec fn rename_pattern(from: Seq<char>, word_boundary: bool) -> Seq<char> {
    if word_boundary {
        "\\b"@ + escaped_pattern(from) + "\\b"@
    } else {
        escaped_pattern(from)
    }
}

/// The text of `text` between byte offsets `start` and `end`.
pub open spec fn matched_text(text: Seq<char>, start: int, end: int) -> Seq<char> {
    text.subrange(char_index(text, start), char_index(text, end))
}

/// What stands in place of a renamed occurrence: the new token, rendered in
/// the case shape of the occurrence where the rename is case-aware.
pub open spec fn renamed_token(occurrence: Seq<char>, to: Seq<char>, case_aware: bool) -> Seq<
    char,
> {
    if case_aware {
        in_case(case_kind_of(occurrence), to)
    } else {
        to
    }
}

/// The occurrences at `spans`, each with what is to stand in its place.
pub open spec fn renamed_matches(
    text: Seq<char>,
    spans: Seq<(usize, usize)>,
    to: Seq<char>,
    case_aware: bool,
) -> Seq<MatchView> {
    Seq::new(
        spans.len(),
        |i: int|
            MatchView {
                start: spans[i].0 as int,
                end: spans[i].1 as int,
                replacement: renamed_token(
                    matched_text(text, spans[i].0 as int, spans[i].1 as int),
                    to,
                    case_aware,
                ),
            },
    )
}

/// What `rename_matches` owes for the occurrences at `spans`.
pub open spec fn rename_contract(
    text: Seq<char>,
    spans: Seq<(usize, usize)>,
    to: Seq<char>,
    case_aware: bool,
    r: Option<String>,
) -> bool {
    match r {
        Some(new_text) => spans.len() > 0 && new_text@ == spliced(
            text,
            renamed_matches(text, spans, to, case_aware),
        ),
        None => spans.len() == 0,
    }
}

/// Where no line limit is given, every match is eligible.
pub proof fn lemma_all_eligible(text: Seq<char>, ms: Seq<MatchView>)
    ensures
        eligible_matches(text, ms, None) == ms,
    decreases ms.len(),
{
    reveal(Seq::filter);
    if ms.len() > 0 {
        lemma_all_eligible(text, ms.drop_last());
        assert(ms.drop_last().push(ms.last()) =~= ms);
    }
}

/// Replaces every occurrence at `spans` by the token `to`; where the rename is
/// case-aware, `to` takes the case shape of each occurrence. No occurrence, no
/// new text.
///
/// `spans` are spans as a pattern matcher reports them: between character
/// boundaries of `text`, in order and without overlap.
pub fn rename_matches(text: &str, spans: &Vec<(usize, usize)>, to: &str, case_aware: bool) -> (r:
    Option<String>)
    requires
        spans_in_order(text@, spans@),
    ensures
        rename_contract(text@, spans@, to@, case_aware, r),
{
    if spans.len() == 0 {
        return None;
    }
    let index = TextIndex::new(text);
    let mut matches: Vec<FoundMatch> = Vec::new();
    let mut i: usize = 0;
    while i < spans.len()
        invariant
            i <= spans.len(),
            index.wf(),
            index.chars@ == text@,
            spans_in_order(text@, spans@),
            matches.len() == i,
            forall|k: int|
                0 <= k < i ==> (#[trigger] matches@[k])@ == renamed_matches(
                    text@,
                    spans@,
                    to@,
                    case_aware,
                )[k],
        decreases spans.len() - i,
    {
        let span = spans[i];
        let replacement: String = if case_aware {
            let from = index.char_at_offset(span.0);
            let until = index.char_at_offset(span.1);
            match (from, until) {
                (Some(from), Some(until)) => {
                    proof {
                        if until < from {
                            lemma_byte_offset_increases(text@, until as int, from as int);
                        }
                    }
                    let occurrence = string_of(
                        copy_range(index.chars.as_slice(), from, until).as_slice(),
                    );
                    adjust_case(occurrence.as_str(), to)
                },
                _ => {
                    assert(false);
                    to.to_owned()
                },
            }
        } else {
            to.to_owned()
        };
        matches.push(FoundMatch { start: span.0, end: span.1, replacement });
        i += 1;
    }
    proof {
        assert(match_views(matches@) =~= renamed_matches(text@, spans@, to@, case_aware));
        assert(spans_of(matches@) =~= spans@);
        lemma_all_eligible(text@, match_views(matches@));
    }
    match replace_matches(text, &matches, None, None, None) {
        Ok(outcome) => outcome.new_text,
        Err(_) => None,
    }
}

/// What `apply_rename` owes: for the occurrences of the token what
/// `rename_matches` owes; the pattern of a token is refused only if the
/// matcher refuses it.
pub open spec fn apply_rename_contract(
    text: Seq<char>,
    options: RenameOptions,
    r: Result<Option<String>, TransformError>,
) -> bool {
    match pattern_spans(rename_pattern(options.from@, options.word_boundary), options.case_aware, text) {
        Some(spans) => r matches Ok(new_text) && rename_contract(
            text,
            spans,
            options.to@,
            options.case_aware,
            new_text,
        ),
        None => r matches Err(TransformError::InvalidPattern(_)),
    }
}

/// Renames the token `options.from` to `options.to` in the decoded text. The
/// token is searched literally, between word boundaries on request, and
/// without regard to case where the rename is case-aware.
pub fn apply_rename(decoded: &DecodedText, options: &RenameOptions) -> (r: Result<
    Option<String>,
    TransformError,
>)
    ensures
        apply_rename_contract(decoded.text@, *options, r),
{
    let escaped = escape_literal(options.from.as_str());
    let pattern: String = if options.word_boundary {
        let mut guarded = "\\b".to_owned();
        guarded.append(escaped.as_str());
        guarded.append("\\b");
        guarded
    } else {
        escaped
    };
    match find_spans(pattern.as_str(), options.case_aware, decoded.text.as_str()) {
        Ok(spans) => Ok(
            rename_matches(decoded.text.as_str(), &spans, options.to.as_str(), options.case_aware),
        ),
        Err(error) => Err(TransformError::InvalidPattern(pattern_error_text(&error))),
    }
}

} // verus!

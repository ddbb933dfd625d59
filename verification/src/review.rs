//! Reviewing a file: which lines to show, the commands of step mode, and the
//! bounds on what is printed.

use vstd::prelude::*;
use vstd::string::StringExecFns;

use crate::chars::{leading, trim_bounds, trimmed, CharClass};
use crate::lines::{rows, texts};
use crate::matcher::{
    escape_literal, escaped_pattern, find_spans, pattern_error_text, pattern_spans, spans_in_order,
};
use crate::numbers::{decimal, decimal_chars, parse_usize, spelled_usize};
use crate::offsets::{
    byte_len, byte_length, count_fitting, fitting, lemma_byte_offset_increases, TextIndex,
};

use crate::text::{has_prefix, starts_with, 
    ascii_lowercase, ascii_lowered, chars_of, copy_range, opt_str_view, push_all, same_chars,
    split_words, string_of, words,
};

verus! {

/// The number of lines shown where nothing else is asked for.
pub const DEFAULT_HEAD_LINES: usize = 40;

/// The most lines a review prints.
pub const REVIEW_MAX_LINES: usize = 5000;

/// The number of bytes at which a review stops printing.
pub const REVIEW_MAX_BYTES: usize = 5242880;

/// The most bytes a printed line holds.
pub const REVIEW_MAX_LINE_BYTES: usize = 65536;

/// What is put at the end of a line that was cut.
pub const REVIEW_LINE_TRUNCATION_SUFFIX: &'static str = "... (line truncated)";

/// The pause, in milliseconds, between two looks at a file that is followed.
pub const FOLLOW_INTERVAL_MS: u64 = 750;

/// What the user asks to see.
#[derive(Debug, Clone)]
pub struct ReviewInput<'a> {
    pub head: Option<usize>,
    pub tail: Option<usize>,
    pub lines: Option<&'a str>,
    pub around: Option<&'a str>,
    pub follow: bool,
    pub step: bool,
    pub search: Option<&'a str>,
    pub regex: bool,
}

/// A part of a file to show.
#[derive(Debug, Clone, Copy, PartialEq, Eq)]
pub enum ReviewSlice {
    /// The first lines.
    Head(usize),
    /// The last lines.
    Tail(usize),
    /// The lines from `start` to `end`, counted from one.
    Range { start: usize, end: usize },
    /// The line `line` with `context` lines before and after it.
    Around { line: usize, context: usize },
}

/// Why a review could not be set up.
#[derive(Debug, Clone)]
pub enum ReviewFailure {
    /// Follow mode and step mode were both asked for.
    FollowWithStep,
    /// A range has no separator between start and end.
    RangeNeedsEnd,
    /// A range has more than two parts.
    RangeTooManyParts,
    /// A context specification has no separator between line and context.
    AroundNeedsContext,
    /// A field is not a number; the field is attached.
    InvalidNumber(String),
    /// A line number is zero.
    LineNumbersStartAtOne,
    /// A range starts after it ends.
    RangeStartAfterEnd,
    /// The search pattern is not a valid pattern; the matcher's message is
    /// attached.
    InvalidSearch(String),
}

impl ReviewFailure {
    /// The message for the user.
    pub fn message(&self) -> (r: String)
        ensures
            r@ == match self {
                ReviewFailure::FollowWithStep => "--follow cannot be combined with --step mode"@,
                ReviewFailure::RangeNeedsEnd => "range spec requires start:end"@,
                ReviewFailure::RangeTooManyParts => "range spec should be in the form start:end"@,
                ReviewFailure::AroundNeedsContext => "around spec requires line:context"@,
                ReviewFailure::InvalidNumber(field) => "invalid number '"@ + field@ + "'"@,
                ReviewFailure::LineNumbersStartAtOne => "line numbers start at 1"@,
                ReviewFailure::RangeStartAfterEnd => "range start must be <= end"@,
                ReviewFailure::InvalidSearch(detail) => "invalid search pattern: "@ + detail@,
            },
    {
        match self {
            ReviewFailure::FollowWithStep => "--follow cannot be combined with --step mode".to_owned(),
            ReviewFailure::RangeNeedsEnd => "range spec requires start:end".to_owned(),
            ReviewFailure::RangeTooManyParts => "range spec should be in the form start:end"
                .to_owned(),
            ReviewFailure::AroundNeedsContext => "around spec requires line:context".to_owned(),
            ReviewFailure::InvalidNumber(field) => {
                let mut out = "invalid number '".to_owned();
                out.append(field.as_str());
                out.append("'");
                out
            },
            ReviewFailure::LineNumbersStartAtOne => "line numbers start at 1".to_owned(),
            ReviewFailure::RangeStartAfterEnd => "range start must be <= end".to_owned(),
            ReviewFailure::InvalidSearch(detail) => {
                let mut out = "invalid search pattern: ".to_owned();
                out.append(detail.as_str());
                out
            },
        }
    }
}

/// The index of the first of the separators `a` and `b` in `s` at or after
/// `from`; the length of `s` where there is none.
pub open spec fn separator_from(s: Seq<char>, a: char, b: char, from: int) -> int
    decreases s.len() - from,
{
    if from < 0 || from >= s.len() {
        s.len() as int
    } else if s[from] == a || s[from] == b {
        from
    } else {
        separator_from(s, a, b, from + 1)
    }
}

/// The first field of `s`: what stands before the first separator.
pub open spec fn first_field(s: Seq<char>, a: char, b: char) -> Seq<char> {
    s.subrange(0, separator_from(s, a, b, 0))
}

/// `s` has a second field: it holds a separator.
pub open spec fn has_second_field(s: Seq<char>, a: char, b: char) -> bool {
    separator_from(s, a, b, 0) < s.len()
}

/// The index at which the second field of `s` ends.
pub open spec fn second_field_end(s: Seq<char>, a: char, b: char) -> int {
    separator_from(s, a, b, separator_from(s, a, b, 0) + 1)
}

/// The second field of `s`: what stands between the first separator and the
/// next one.
pub open spec fn second_field(s: Seq<char>, a: char, b: char) -> Seq<char> {
    s.subrange(separator_from(s, a, b, 0) + 1, second_field_end(s, a, b))
}

/// `s` has a third field: it holds a second separator.
pub open spec fn has_third_field(s: Seq<char>, a: char, b: char) -> bool {
    has_second_field(s, a, b) && second_field_end(s, a, b) < s.len()
}

fn find_separator(s: &[char], a: char, b: char, from: usize) -> (r: usize)
    requires
        from <= s.len(),
    ensures
        r == separator_from(s@, a, b, from as int),
        from <= r <= s.len(),
{
    let mut i: usize = from;
    while i < s.len() && !(s[i] == a || s[i] == b)
        invariant
            from <= i <= s.len(),
            separator_from(s@, a, b, from as int) == separator_from(s@, a, b, i as int),
        decreases s.len() - i,
    {
        i += 1;
    }
    i
}

/// The number that a field spells once it is trimmed.
pub open spec fn field_number(field: Seq<char>) -> Option<usize> {
    spelled_usize(trimmed(field, CharClass::Whitespace))
}

fn parse_field(field: &[char]) -> (r: Result<usize, ReviewFailure>)
    ensures
        match r {
            Ok(value) => field_number(field@) == Some(value),
            Err(ReviewFailure::InvalidNumber(text)) => field_number(field@) is None && text@
                == trimmed(field@, CharClass::Whitespace),
            Err(_) => false,
        },
{
    let bounds = trim_bounds(field, CharClass::Whitespace);
    let bare = vstd::slice::slice_subrange(field, bounds.0, bounds.1);
    match parse_usize(bare) {
        Some(value) => Ok(value),
        None => Err(ReviewFailure::InvalidNumber(string_of(bare))),
    }
}

/// The range that a range specification gives: two numbers from one up, the
/// first no greater than the second, with one colon or hyphen between them.
pub open spec fn range_of(spec: Seq<char>) -> Option<(usize, usize)> {
    if !has_second_field(spec, ':', '-') || has_third_field(spec, ':', '-') {
        None
    } else {
        match (field_number(first_field(spec, ':', '-')), field_number(second_field(spec, ':', '-'))) {
            (Some(start), Some(end)) => if start == 0 || end == 0 || start > end {
                None
            } else {
                Some((start, end))
            },
            _ => None,
        }
    }
}

/// `e` is the error that the range specification `spec` meets: the first of
/// a missing end, a part too many, a field that is no number (the field is
/// attached, trimmed), a line number of zero, and a start after the end.
pub open spec fn range_error(spec: Seq<char>, e: ReviewFailure) -> bool {
    let first = first_field(spec, ':', '-');
    let second = second_field(spec, ':', '-');
    if !has_second_field(spec, ':', '-') {
        e is RangeNeedsEnd
    } else if has_third_field(spec, ':', '-') {
        e is RangeTooManyParts
    } else if field_number(first) is None {
        e matches ReviewFailure::InvalidNumber(text) && text@ == trimmed(first, CharClass::Whitespace)
    } else if field_number(second) is None {
        e matches ReviewFailure::InvalidNumber(text) && text@ == trimmed(
            second,
            CharClass::Whitespace,
        )
    } else if field_number(first)->0 == 0 || field_number(second)->0 == 0 {
        e is LineNumbersStartAtOne
    } else {
        e is RangeStartAfterEnd
    }
}

/// Reads a range of lines such as `10:20` or `10-20`.
pub fn parse_range_spec(spec: &str) -> (r: Result<(usize, usize), ReviewFailure>)
    ensures
        match r {
            Ok(range) => range_of(spec@) == Some(range),
            Err(e) => range_of(spec@) is None && range_error(spec@, e),
        },
{
    let chars = chars_of(spec);
    let s = chars.as_slice();
    let first_end = find_separator(s, ':', '-', 0);
    if first_end == s.len() {
        return Err(ReviewFailure::RangeNeedsEnd);
    }
    let second_end = find_separator(s, ':', '-', first_end + 1);
    if second_end < s.len() {
        return Err(ReviewFailure::RangeTooManyParts);
    }
    let start = match parse_field(vstd::slice::slice_subrange(s, 0, first_end)) {
        Ok(value) => value,
        Err(e) => {
            return Err(e);
        },
    };
    let end = match parse_field(vstd::slice::slice_subrange(s, first_end + 1, second_end)) {
        Ok(value) => value,
        Err(e) => {
            return Err(e);
        },
    };
    if start == 0 || end == 0 {
        return Err(ReviewFailure::LineNumbersStartAtOne);
    }
    if start > end {
        return Err(ReviewFailure::RangeStartAfterEnd);
    }
    Ok((start, end))
}

/// The line with its context that a context specification gives.
pub open spec fn conopt_str_view(spec: Seq<char>) -> Option<(usize, usize)> {
    if !has_second_field(spec, ':', ',') {
        None
    } else {
        match (field_number(first_field(spec, ':', ',')), field_number(second_field(spec, ':', ','))) {
            (Some(line), Some(context)) => if line == 0 {
                None
            } else {
                Some((line, context))
            },
            _ => None,
        }
    }
}

/// `e` is the error that the context specification `spec` meets: the first of
/// a missing context, a field that is no number (the field is attached,
/// trimmed), and a line number of zero.
pub open spec fn context_error(spec: Seq<char>, e: ReviewFailure) -> bool {
    let first = first_field(spec, ':', ',');
    let second = second_field(spec, ':', ',');
    if !has_second_field(spec, ':', ',') {
        e is AroundNeedsContext
    } else if field_number(first) is None {
        e matches ReviewFailure::InvalidNumber(text) && text@ == trimmed(first, CharClass::Whitespace)
    } else if field_number(second) is None {
        e matches ReviewFailure::InvalidNumber(text) && text@ == trimmed(
            second,
            CharClass::Whitespace,
        )
    } else {
        e is LineNumbersStartAtOne
    }
}

/// Reads a line with its context such as `42:5` or `42,5`: a line number from
/// one up and a number of context lines. Further fields are ignored.
pub fn parse_line_context(spec: &str) -> (r: Result<(usize, usize), ReviewFailure>)
    ensures
        match r {
            Ok(pair) => conopt_str_view(spec@) == Some(pair),
            Err(e) => conopt_str_view(spec@) is None && context_error(spec@, e),
        },
{
    let chars = chars_of(spec);
    let s = chars.as_slice();
    let first_end = find_separator(s, ':', ',', 0);
    if first_end == s.len() {
        return Err(ReviewFailure::AroundNeedsContext);
    }
    let second_end = find_separator(s, ':', ',', first_end + 1);
    let line = match parse_field(vstd::slice::slice_subrange(s, 0, first_end)) {
        Ok(value) => value,
        Err(e) => {
            return Err(e);
        },
    };
    let context = match parse_field(vstd::slice::slice_subrange(s, first_end + 1, second_end)) {
        Ok(value) => value,
        Err(e) => {
            return Err(e);
        },
    };
    if line == 0 {
        return Err(ReviewFailure::LineNumbersStartAtOne);
    }
    Ok((line, context))
}

/// The indices, counted from zero, of the lines from `start_line` to
/// `end_line`, counted from one, of a file of `total_lines` lines: from the
/// first index up to, not including, the second. The start is brought inside
/// the file; the end is brought to the start where it lies before it, and to
/// the end of the file where it lies past it.
pub open spec fn indices_of(start_line: int, end_line: int, total_lines: int) -> (int, int) {
    let first = if start_line > 0 {
        start_line - 1
    } else {
        0
    };
    let last = if total_lines > 0 {
        total_lines - 1
    } else {
        0
    };
    let start = if first < last {
        first
    } else {
        last
    };
    let wanted = if end_line > 0 {
        end_line - 1
    } else {
        0
    };
    let end = if wanted < start {
        start
    } else {
        wanted
    };
    (
        start,
        if end + 1 < total_lines {
            end + 1
        } else {
            total_lines
        },
    )
}

/// The indices of the lines from `start_line` to `end_line` of a file of
/// `total_lines` lines.
pub fn to_indices(start_line: usize, end_line: usize, total_lines: usize) -> (r: (usize, usize))
    ensures
        (r.0 as int, r.1 as int) == indices_of(
            start_line as int,
            end_line as int,
            total_lines as int,
        ),
        r.1 <= total_lines,
{
    let first = start_line.saturating_sub(1);
    let last = total_lines.saturating_sub(1);
    let start = if first < last {
        first
    } else {
        last
    };
    let mut end = end_line.saturating_sub(1);
    if end < start {
        end = start;
    }
    (
        start,
        if end < total_lines && end + 1 < total_lines {
            end + 1
        } else {
            total_lines
        },
    )
}

/// The indices, counted from zero, of the lines of `slice` in a file of
/// `total_lines` lines: from the first up to, not including, the second.
pub open spec fn bounds_of(slice: ReviewSlice, total_lines: int) -> (int, int) {
    match slice {
        ReviewSlice::Head(count) => (
            0,
            if count < total_lines {
                count as int
            } else {
                total_lines
            },
        ),
        ReviewSlice::Tail(count) => (
            if count < total_lines {
                total_lines - count
            } else {
                0
            },
            total_lines,
        ),
        ReviewSlice::Range { start, end } => indices_of(start as int, end as int, total_lines),
        ReviewSlice::Around { line, context } => indices_of(
            if line > context {
                line - context
            } else {
                0
            },
            if line + context > usize::MAX {
                usize::MAX as int
            } else {
                line + context
            },
            total_lines,
        ),
    }
}

/// The indices of the lines of `slice` in a file of `total_lines` lines.
pub fn slice_bounds(slice: ReviewSlice, total_lines: usize) -> (r: (usize, usize))
    ensures
        (r.0 as int, r.1 as int) == bounds_of(slice, total_lines as int),
        r.1 <= total_lines,
{
    match slice {
        ReviewSlice::Head(count) => (
            0,
            if count < total_lines {
                count
            } else {
                total_lines
            },
        ),
        ReviewSlice::Tail(count) => (total_lines.saturating_sub(count), total_lines),
        ReviewSlice::Range { start, end } => to_indices(start, end, total_lines),
        ReviewSlice::Around { line, context } => to_indices(
            line.saturating_sub(context),
            line.saturating_add(context),
            total_lines,
        ),
    }
}

/// A command of step mode.
#[derive(Debug, Clone, PartialEq, Eq)]
pub enum StepCommand {
    NextLine,
    PrevLine,
    Head,
    Tail,
    Jump(usize),
    Search(String),
    FindNext,
    FindPrev,
    SetBookmark,
    JumpBookmark,
    Help,
    Quit,
}

/// A command of step mode as the contracts see it.
pub enum StepCommandView {
    NextLine,
    PrevLine,
    Head,
    Tail,
    Jump(usize),
    Search(Seq<char>),
    FindNext,
    FindPrev,
    SetBookmark,
    JumpBookmark,
    Help,
    Quit,
}

impl View for StepCommand {
    type V = StepCommandView;

    open spec fn view(&self) -> StepCommandView {
        match self {
            StepCommand::NextLine => StepCommandView::NextLine,
            StepCommand::PrevLine => StepCommandView::PrevLine,
            StepCommand::Head => StepCommandView::Head,
            StepCommand::Tail => StepCommandView::Tail,
            StepCommand::Jump(target) => StepCommandView::Jump(*target),
            StepCommand::Search(pattern) => StepCommandView::Search(pattern@),
            StepCommand::FindNext => StepCommandView::FindNext,
            StepCommand::FindPrev => StepCommandView::FindPrev,
            StepCommand::SetBookmark => StepCommandView::SetBookmark,
            StepCommand::JumpBookmark => StepCommandView::JumpBookmark,
            StepCommand::Help => StepCommandView::Help,
            StepCommand::Quit => StepCommandView::Quit,
        }
    }
}

/// The index, counted from zero, of the line that `raw` asks to jump to: a
/// line number from one up, after an optional `g`. Nothing where no such
/// number is given.
pub open spec fn jump_target(raw: Seq<char>) -> Option<usize> {
    let bare = trimmed(raw, CharClass::Whitespace);
    let candidate = if bare.len() > 0 && (bare[0] == 'g' || bare[0] == 'G') {
        bare.skip(1)
    } else {
        bare
    };
    let ws = words(candidate);
    if ws.len() == 0 {
        None
    } else {
        match spelled_usize(ws[0]) {
            Some(value) => if value == 0 {
                None
            } else {
                Some((value - 1) as usize)
            },
            None => None,
        }
    }
}

/// Reads the line that `raw` asks to jump to.
pub fn parse_jump_target(raw: &str) -> (r: Option<usize>)
    ensures
        r == jump_target(raw@),
{
    let chars = chars_of(raw);
    jump_target_of(chars.as_slice())
}

fn jump_target_of(raw: &[char]) -> (r: Option<usize>)
    ensures
        r == jump_target(raw@),
{
    let bounds = trim_bounds(raw, CharClass::Whitespace);
    let bare = vstd::slice::slice_subrange(raw, bounds.0, bounds.1);
    let from: usize = if bare.len() > 0 && (bare[0] == 'g' || bare[0] == 'G') {
        1
    } else {
        0
    };
    let candidate = vstd::slice::slice_subrange(bare, from, bare.len());
    assert(from == 0 ==> candidate@ =~= bare@);
    let parts = split_words(candidate);
    proof {
        assert(rows(parts@).len() == parts.len());
        if parts.len() > 0 {
            assert(rows(parts@)[0] == parts@[0]@);
        }
    }
    if parts.len() == 0 {
        return None;
    }
    match parse_usize(parts[0].as_slice()) {
        Some(value) => if value == 0 {
            None
        } else {
            Some(value - 1)
        },
        None => None,
    }
}

/// The command that the word `word`, already in small letters, names.
pub open spec fn named_command(word: Seq<char>) -> Option<StepCommandView> {
    if word == "j"@ || word == "next"@ {
        Some(StepCommandView::NextLine)
    } else if word == "k"@ || word == "p"@ || word == "b"@ || word == "prev"@ {
        Some(StepCommandView::PrevLine)
    } else if word == "g"@ || word == "h"@ || word == "head"@ {
        Some(StepCommandView::Head)
    } else if word == "t"@ || word == "tail"@ {
        Some(StepCommandView::Tail)
    } else if word == "q"@ || word == "quit"@ {
        Some(StepCommandView::Quit)
    } else if word == "?"@ || word == "help"@ {
        Some(StepCommandView::Help)
    } else if word == "m"@ || word == "mark"@ {
        Some(StepCommandView::SetBookmark)
    } else if word == "jumpmark"@ || word == "return"@ {
        Some(StepCommandView::JumpBookmark)
    } else {
        None
    }
}

/// The command that `input` spells. An empty line steps forward; a slash
/// starts a search; `n`, `N`, `G` and the apostrophe are read as they stand;
/// the named commands count in either case; anything else is a jump if it
/// gives a line number, and a call for help if not.
pub open spec fn step_command(input: Seq<char>) -> StepCommandView {
    let bare = trimmed(input, CharClass::Whitespace);
    if bare.len() == 0 {
        StepCommandView::NextLine
    } else if bare[0] == '/' {
        StepCommandView::Search(bare.skip(1))
    } else if bare == "n"@ {
        StepCommandView::FindNext
    } else if bare == "N"@ {
        StepCommandView::FindPrev
    } else if bare == "G"@ {
        StepCommandView::Tail
    } else if bare == "'"@ {
        StepCommandView::JumpBookmark
    } else {
        match named_command(ascii_lowered(bare)) {
            Some(command) => command,
            None => match jump_target(bare) {
                Some(target) => StepCommandView::Jump(target),
                None => StepCommandView::Help,
            },
        }
    }
}

fn is_word(s: &[char], word: &str) -> (r: bool)
    ensures
        r == (s@ == word@),
{
    let w = chars_of(word);
    same_chars(s, w.as_slice())
}

fn named(word: &[char]) -> (r: Option<StepCommand>)
    ensures
        match r {
            Some(command) => named_command(word@) == Some(command@),
            None => named_command(word@) is None,
        },
{
    if is_word(word, "j") || is_word(word, "next") {
        Some(StepCommand::NextLine)
    } else if is_word(word, "k") || is_word(word, "p") || is_word(word, "b") || is_word(
        word,
        "prev",
    ) {
        Some(StepCommand::PrevLine)
    } else if is_word(word, "g") || is_word(word, "h") || is_word(word, "head") {
        Some(StepCommand::Head)
    } else if is_word(word, "t") || is_word(word, "tail") {
        Some(StepCommand::Tail)
    } else if is_word(word, "q") || is_word(word, "quit") {
        Some(StepCommand::Quit)
    } else if is_word(word, "?") || is_word(word, "help") {
        Some(StepCommand::Help)
    } else if is_word(word, "m") || is_word(word, "mark") {
        Some(StepCommand::SetBookmark)
    } else if is_word(word, "jumpmark") || is_word(word, "return") {
        Some(StepCommand::JumpBookmark)
    } else {
        None
    }
}

/// Reads a command of step mode.
pub fn parse_step_command(input: &str) -> (r: StepCommand)
    ensures
        r@ == step_command(input@),
{
    let chars = chars_of(input);
    let bounds = trim_bounds(chars.as_slice(), CharClass::Whitespace);
    let bare = vstd::slice::slice_subrange(chars.as_slice(), bounds.0, bounds.1);
    if bare.len() == 0 {
        return StepCommand::NextLine;
    }
    if bare[0] == '/' {
        let rest = vstd::slice::slice_subrange(bare, 1, bare.len());
        assert(rest@ =~= bare@.skip(1));
        return StepCommand::Search(string_of(rest));
    }
    if is_word(bare, "n") {
        return StepCommand::FindNext;
    }
    if is_word(bare, "N") {
        return StepCommand::FindPrev;
    }
    if is_word(bare, "G") {
        return StepCommand::Tail;
    }
    if is_word(bare, "'") {
        return StepCommand::JumpBookmark;
    }
    let lower = ascii_lowercase(bare);
    match named(lower.as_slice()) {
        Some(command) => command,
        None => {
            proof {
                lemma_trimmed_twice(bare@, chars@);
            }
            match jump_target_of(bare) {
                Some(target) => StepCommand::Jump(target),
                None => StepCommand::Help,
            }
        },
    }
}

/// Trimming what is trimmed already changes nothing.
proof fn lemma_trimmed_twice(bare: Seq<char>, s: Seq<char>)
    requires
        bare == trimmed(s, CharClass::Whitespace),
    ensures
        trimmed(bare, CharClass::Whitespace) == bare,
{
    let class = CharClass::Whitespace;
    crate::chars::lemma_leading(s, class);
    let rest = s.skip(leading(s, class) as int);
    crate::chars::lemma_trailing(rest, class);
    crate::chars::lemma_leading(bare, class);
    crate::chars::lemma_trailing(bare, class);
    if bare.len() > 0 {
        if leading(s, class) < s.len() {
            assert(rest[0] == s[leading(s, class) as int]);
        }
        assert(bare[0] == rest[0]);
        assert(leading(bare, class) == 0);
        assert(bare.skip(0) =~= bare);
        assert(bare.last() == rest[rest.len() - crate::chars::trailing(rest, class) - 1]);
        assert(crate::chars::trailing(bare, class) == 0);
        assert(bare.take(bare.len() as int) =~= bare);
    } else {
        assert(bare.skip(0) =~= bare);
        assert(bare.take(0) =~= bare);
    }
}

/// What is shown, and how.
#[derive(Debug, Clone)]
pub struct ReviewOptions {
    /// The parts of the file to show, in the order in which they are shown.
    pub slices: Vec<ReviewSlice>,
    /// The pattern whose matches are highlighted, if there is one.
    pub matcher: Option<String>,
    pub follow: bool,
    pub step: bool,
}

/// The parts to show for what the user asks: the range, the context, the
/// head and the tail, each where it is asked for, in this order; the first
/// forty lines where nothing is asked for.
pub open spec fn slices_for(
    range: Option<(usize, usize)>,
    around: Option<(usize, usize)>,
    head: Option<usize>,
    tail: Option<usize>,
) -> Seq<ReviewSlice> {
    let a: Seq<ReviewSlice> = match range {
        Some(r) => seq![ReviewSlice::Range { start: r.0, end: r.1 }],
        None => Seq::empty(),
    };
    let b = match around {
        Some(c) => a.push(ReviewSlice::Around { line: c.0, context: c.1 }),
        None => a,
    };
    let c = match head {
        Some(count) => b.push(ReviewSlice::Head(count)),
        None => b,
    };
    let d = match tail {
        Some(count) => c.push(ReviewSlice::Tail(count)),
        None => c,
    };
    if d.len() == 0 {
        seq![ReviewSlice::Head(DEFAULT_HEAD_LINES)]
    } else {
        d
    }
}

/// The pattern that a search for `raw` compiles: `raw` itself where it is a
/// pattern, and `raw` escaped where it is to be taken literally.
pub open spec fn search_pattern(raw: Seq<char>, regex: bool) -> Seq<char> {
    if regex {
        raw
    } else {
        escaped_pattern(raw)
    }
}

/// The pattern is one that the matcher accepts.
pub open spec fn pattern_accepted(pattern: Seq<char>) -> bool {
    pattern_spans(pattern, false, Seq::empty()) is Some
}

/// The pattern to highlight for a search, once it is known to be valid.
pub fn build_matcher(pattern: Option<&str>, regex: bool) -> (r: Result<Option<String>, ReviewFailure>)
    ensures
        match pattern {
            None => r matches Ok(None),
            Some(raw) => if pattern_accepted(search_pattern(raw@, regex)) {
                r matches Ok(Some(expr)) && expr@ == search_pattern(raw@, regex)
            } else {
                r matches Err(ReviewFailure::InvalidSearch(_))
            },
        },
{
    let raw = match pattern {
        Some(raw) => raw,
        None => {
            return Ok(None);
        },
    };
    let expr: String = if regex {
        raw.to_owned()
    } else {
        escape_literal(raw)
    };
    let empty = String::new();
    match find_spans(expr.as_str(), false, empty.as_str()) {
        Ok(_) => Ok(Some(expr)),
        Err(error) => Err(ReviewFailure::InvalidSearch(pattern_error_text(&error))),
    }
}

impl ReviewOptions {
    /// Sets a review up from what the user asks. Follow mode and step mode
    /// exclude each other; a range, a context and a search pattern must be
    /// well formed.
    pub fn from_input(input: ReviewInput<'_>) -> (r: Result<Self, ReviewFailure>)
        ensures
            match r {
                Ok(options) => {
                    &&& !(input.follow && input.step)
                    &&& (input.lines matches Some(spec) ==> range_of(spec@) is Some)
                    &&& (input.around matches Some(spec) ==> conopt_str_view(spec@) is Some)
                    &&& options.slices@ == slices_for(
                        match input.lines {
                            Some(spec) => range_of(spec@),
                            None => None,
                        },
                        match input.around {
                            Some(spec) => conopt_str_view(spec@),
                            None => None,
                        },
                        input.head,
                        input.tail,
                    )
                    &&& options.follow == input.follow
                    &&& options.step == input.step
                    &&& match input.search {
                        Some(raw) => pattern_accepted(search_pattern(raw@, input.regex)) && (
                        options.matcher matches Some(expr) && expr@ == search_pattern(
                            raw@,
                            input.regex,
                        )),
                        None => options.matcher is None,
                    }
                },
                Err(e) => if input.follow && input.step {
                    e is FollowWithStep
                } else if input.lines is Some && range_of(input.lines->0@) is None {
                    range_error(input.lines->0@, e)
                } else if input.around is Some && conopt_str_view(input.around->0@) is None {
                    context_error(input.around->0@, e)
                } else {
                    e is InvalidSearch && input.search is Some && !pattern_accepted(
                        search_pattern(input.search->0@, input.regex),
                    )
                },
            },
    {
        if input.follow && input.step {
            return Err(ReviewFailure::FollowWithStep);
        }
        let mut slices: Vec<ReviewSlice> = Vec::new();
        if let Some(range) = input.lines {
            match parse_range_spec(range) {
                Ok(pair) => {
                    slices.push(ReviewSlice::Range { start: pair.0, end: pair.1 });
                },
                Err(e) => {
                    return Err(e);
                },
            }
        }
        if let Some(around) = input.around {
            match parse_line_context(around) {
                Ok(pair) => {
                    slices.push(ReviewSlice::Around { line: pair.0, context: pair.1 });
                },
                Err(e) => {
                    return Err(e);
                },
            }
        }
        if let Some(head) = input.head {
            slices.push(ReviewSlice::Head(head));
        }
        if let Some(tail) = input.tail {
            slices.push(ReviewSlice::Tail(tail));
        }
        if slices.len() == 0 {
            slices.push(ReviewSlice::Head(DEFAULT_HEAD_LINES));
        }
        let matcher = match build_matcher(input.search, input.regex) {
            Ok(matcher) => matcher,
            Err(e) => {
                return Err(e);
            },
        };
        proof {
            assert(slices@ =~= slices_for(
                match input.lines {
                    Some(spec) => range_of(spec@),
                    None => None,
                },
                match input.around {
                    Some(spec) => conopt_str_view(spec@),
                    None => None,
                },
                input.head,
                input.tail,
            ));
        }
        Ok(ReviewOptions { slices, matcher, follow: input.follow, step: input.step })
    }

    /// The pattern whose matches are highlighted.
    pub fn matcher(&self) -> (r: Option<&str>)
        ensures
            opt_str_view(r) == match self.matcher {
                Some(pattern) => Some(pattern@),
                None => None,
            },
    {
        match &self.matcher {
            Some(pattern) => Some(pattern.as_str()),
            None => None,
        }
    }

    /// Whether the file is stepped through line by line.
    pub fn step_mode(&self) -> (r: bool)
        ensures
            r == self.step,
    {
        self.step
    }
}

/// The cap that stopped a review.
#[derive(Debug, Clone, Copy, PartialEq, Eq)]
pub enum ReviewTruncateReason {
    LineCount,
    ByteCount,
}

/// The mark at the end of a cut line.
pub open spec fn review_cut_mark() -> Seq<char> {
    REVIEW_LINE_TRUNCATION_SUFFIX@
}

/// The line as it is printed: a line longer than a line may be is cut to as
/// many whole characters as fit before the mark, and marked.
pub open spec fn limited_line(line: Seq<char>) -> Seq<char> {
    if byte_len(line) <= REVIEW_MAX_LINE_BYTES {
        line
    } else {
        line.take(fitting(line, REVIEW_MAX_LINE_BYTES - 20) as int) + review_cut_mark()
    }
}

/// Cuts `line` where it is longer than a line may be, and tells whether it
/// did.
pub fn truncate_line_to_limit(line: &mut String) -> (cut: bool)
    ensures
        cut == (byte_len(old(line)@) > REVIEW_MAX_LINE_BYTES),
        final(line)@ == limited_line(old(line)@),
{
    let size = byte_length(line.as_str());
    if size <= REVIEW_MAX_LINE_BYTES {
        return false;
    }
    let chars = chars_of(line.as_str());
    let fit = count_fitting(chars.as_slice(), REVIEW_MAX_LINE_BYTES - 20);
    let mut out = string_of(vstd::slice::slice_subrange(chars.as_slice(), 0, fit.0));
    out.append(REVIEW_LINE_TRUNCATION_SUFFIX);
    assert(chars@.subrange(0, fit.0 as int) =~= chars@.take(fit.0 as int));
    *line = out;
    true
}

/// A printed line takes no more bytes than a line may.
proof fn lemma_limited_line_fits(line: Seq<char>)
    ensures
        byte_len(limited_line(line)) <= REVIEW_MAX_LINE_BYTES,
{
    if byte_len(line) > REVIEW_MAX_LINE_BYTES {
        reveal_strlit("... (line truncated)");
        crate::offsets::lemma_byte_len_ascii(review_cut_mark());
        let kept = line.take(fitting(line, REVIEW_MAX_LINE_BYTES - 20) as int);
        crate::offsets::lemma_fitting_fits(line, REVIEW_MAX_LINE_BYTES - 20);
        crate::offsets::lemma_byte_len_concat(kept, review_cut_mark());
    }
}

/// What a review has printed so far, as the contracts see it, and the cap
/// that stopped it, if one did.
pub struct LimiterView {
    pub total_lines: nat,
    pub total_bytes: nat,
    pub line_truncations: nat,
    pub stopped: Option<ReviewTruncateReason>,
}

/// The cap that is reached with `lines` lines and `bytes` bytes printed, if
/// one is. The number of lines is looked at first.
pub open spec fn limit_reached(lines: nat, bytes: nat) -> Option<ReviewTruncateReason> {
    if lines >= REVIEW_MAX_LINES {
        Some(ReviewTruncateReason::LineCount)
    } else if bytes >= REVIEW_MAX_BYTES {
        Some(ReviewTruncateReason::ByteCount)
    } else {
        None
    }
}

/// The line `line` can still be printed: the review is not stopped, and the
/// line, with the line break that follows it, does not take the review past
/// the cap on bytes.
pub open spec fn has_room(v: LimiterView, line: Seq<char>) -> bool {
    v.stopped is None && v.total_bytes + byte_len(limited_line(line)) + 1 <= REVIEW_MAX_BYTES
}

/// The account of a review after `line` is handed in. Once the review is
/// stopped nothing changes. A line that would take the review past the cap on
/// bytes is not printed: it stops the review. Any other line is printed and
/// counts with the line break that follows it, and stops the review where a
/// cap is reached with it.
pub open spec fn counted(v: LimiterView, line: Seq<char>) -> LimiterView {
    if v.stopped is Some {
        v
    } else if !has_room(v, line) {
        LimiterView { stopped: Some(ReviewTruncateReason::ByteCount), ..v }
    } else {
        LimiterView {
            total_lines: v.total_lines + 1,
            total_bytes: v.total_bytes + byte_len(limited_line(line)) + 1,
            line_truncations: if byte_len(line) > REVIEW_MAX_LINE_BYTES {
                v.line_truncations + 1
            } else {
                v.line_truncations
            },
            stopped: limit_reached(
                v.total_lines + 1,
                v.total_bytes + byte_len(limited_line(line)) + 1,
            ),
        }
    }
}

/// Keeps a review within its bounds.
pub struct ReviewLimiter {
    total_bytes: usize,
    total_lines: usize,
    truncated: bool,
    reason: Option<ReviewTruncateReason>,
    line_truncations: usize,
}

impl View for ReviewLimiter {
    type V = LimiterView;

    closed spec fn view(&self) -> LimiterView {
        LimiterView {
            total_lines: self.total_lines as nat,
            total_bytes: self.total_bytes as nat,
            line_truncations: self.line_truncations as nat,
            stopped: self.reason,
        }
    }
}

impl ReviewLimiter {
    #[verifier::type_invariant]
    spec fn consistent(self) -> bool {
        &&& self.total_lines <= REVIEW_MAX_LINES
        &&& self.total_bytes <= REVIEW_MAX_BYTES
        &&& self.line_truncations <= self.total_lines
        &&& limit_reached(self.total_lines as nat, self.total_bytes as nat) is Some
            ==> self.reason is Some
        &&& self.truncated == (self.reason is Some)
    }

    /// A limiter that has printed nothing.
    pub fn new() -> (r: Self)
        ensures
            r@ == (LimiterView {
                total_lines: 0,
                total_bytes: 0,
                line_truncations: 0,
                stopped: None,
            }),
    {
        ReviewLimiter {
            total_bytes: 0,
            total_lines: 0,
            truncated: false,
            reason: None,
            line_truncations: 0,
        }
    }

    /// Accounts for `line` and gives it back as it is to be printed: cut where
    /// it is too long. Nothing is given back once the review is stopped, nor
    /// for the line that would take it past the cap on bytes.
    pub fn push_line(&mut self, line: String) -> (r: Option<String>)
        ensures
            final(self)@ == counted(old(self)@, line@),
            match r {
                Some(printed) => has_room(old(self)@, line@) && printed@ == limited_line(line@),
                None => !has_room(old(self)@, line@),
            },
            final(self)@.total_lines <= REVIEW_MAX_LINES,
            final(self)@.total_bytes <= REVIEW_MAX_BYTES,
    {
        proof {
            use_type_invariant(&*self);
            lemma_limited_line_fits(line@);
        }
        if self.truncated {
            return None;
        }
        let mut line = line;
        let cut = truncate_line_to_limit(&mut line);
        let cuts: usize = if cut {
            self.line_truncations + 1
        } else {
            self.line_truncations
        };
        let size: usize = byte_length(line.as_str());
        if self.total_bytes + size + 1 > REVIEW_MAX_BYTES {
            *self = ReviewLimiter {
                total_bytes: self.total_bytes,
                total_lines: self.total_lines,
                truncated: true,
                reason: Some(ReviewTruncateReason::ByteCount),
                line_truncations: self.line_truncations,
            };
            return None;
        }
        let total_bytes: usize = self.total_bytes + size + 1;
        let total_lines: usize = self.total_lines + 1;
        let reason: Option<ReviewTruncateReason> = if total_lines >= REVIEW_MAX_LINES {
            Some(ReviewTruncateReason::LineCount)
        } else if total_bytes >= REVIEW_MAX_BYTES {
            Some(ReviewTruncateReason::ByteCount)
        } else {
            None
        };
        *self = ReviewLimiter {
            total_bytes,
            total_lines,
            truncated: reason.is_some(),
            reason,
            line_truncations: cuts,
        };
        Some(line)
    }

    /// Whether the review is stopped.
    pub fn truncated(&self) -> (r: bool)
        ensures
            r == (self@.stopped is Some),
    {
        proof {
            use_type_invariant(self);
        }
        self.truncated
    }

    /// The cap that stopped the review, if one did.
    pub fn reason(&self) -> (r: Option<ReviewTruncateReason>)
        ensures
            r == self@.stopped,
    {
        self.reason
    }

    /// How many lines were cut.
    pub fn line_truncations(&self) -> (n: usize)
        ensures
            n == self@.line_truncations,
    {
        self.line_truncations
    }

    /// The notes to show under the review: how many lines were cut, and which
    /// cap stopped it.
    pub fn warnings(&self) -> (notes: Vec<String>)
        ensures
            texts(notes@) == review_warnings(self@.stopped, self@.line_truncations),
    {
        proof {
            use_type_invariant(self);
        }
        let mut notes: Vec<String> = Vec::new();
        assert(texts(notes@) =~= Seq::<Seq<char>>::empty());
        if self.line_truncations > 0 {
            let mut note = "(truncated ".to_owned();
            note.append(string_of(decimal_chars(self.line_truncations as u128).as_slice()).as_str());
            note.append(" long line(s) to ~65536 bytes each)");
            notes.push(note);
            assert(texts(notes@) =~= seq![review_cut_note(self.line_truncations as nat)]);
        }
        let ghost first = texts(notes@);
        match self.reason {
            Some(ReviewTruncateReason::LineCount) => {
                notes.push(
                    "(output truncated at ~5000 lines; narrow your selection or review smaller ranges)".to_owned(),
                );
                assert(texts(notes@) =~= first.push(notes@.last()@));
            },
            Some(ReviewTruncateReason::ByteCount) => {
                notes.push(
                    "(output truncated after ~5242880 bytes; narrow your selection or limit context)".to_owned(),
                );
                assert(texts(notes@) =~= first.push(notes@.last()@));
            },
            None => {},
        }
        notes
    }
}

/// The note on cut lines.
pub open spec fn review_cut_note(cuts: nat) -> Seq<char> {
    "(truncated "@ + decimal(cuts) + " long line(s) to ~65536 bytes each)"@
}

/// The notes under a review: one for the lines that were cut, one for the cap
/// that was reached.
pub open spec fn review_warnings(reason: Option<ReviewTruncateReason>, cuts: nat) -> Seq<
    Seq<char>,
> {
    let first: Seq<Seq<char>> = if cuts > 0 {
        seq![review_cut_note(cuts)]
    } else {
        Seq::empty()
    };
    match reason {
        Some(ReviewTruncateReason::LineCount) => first.push(
            "(output truncated at ~5000 lines; narrow your selection or review smaller ranges)"@,
        ),
        Some(ReviewTruncateReason::ByteCount) => first.push(
            "(output truncated after ~5242880 bytes; narrow your selection or limit context)"@,
        ),
        None => first,
    }
}

/// `pos` is the first line after `index` that matches.
pub open spec fn is_next_match(hits: Seq<bool>, index: int, pos: int) -> bool {
    &&& index < pos < hits.len()
    &&& hits[pos]
    &&& forall|k: int| index < k < pos ==> !hits[k]
}

/// `pos` is the last line before `index` that matches.
pub open spec fn is_prev_match(hits: Seq<bool>, index: int, pos: int) -> bool {
    &&& 0 <= pos < index
    &&& pos < hits.len()
    &&& hits[pos]
    &&& forall|k: int| pos < k < index && k < hits.len() ==> !hits[k]
}

/// The first line after `index` that matches, where `hits` tells of each line
/// whether it matches.
pub fn find_next_match(hits: &Vec<bool>, index: usize) -> (r: Option<usize>)
    ensures
        match r {
            Some(pos) => is_next_match(hits@, index as int, pos as int),
            None => forall|k: int| index < k < hits.len() ==> !hits@[k],
        },
{
    if index >= hits.len() {
        return None;
    }
    let mut pos: usize = index + 1;
    while pos < hits.len()
        invariant
            index < pos <= hits.len(),
            forall|k: int| index < k < pos ==> !hits@[k],
        decreases hits.len() - pos,
    {
        if hits[pos] {
            return Some(pos);
        }
        pos += 1;
    }
    None
}

/// The last line before `index` that matches, where `hits` tells of each line
/// whether it matches.
pub fn find_prev_match(hits: &Vec<bool>, index: usize) -> (r: Option<usize>)
    ensures
        match r {
            Some(pos) => is_prev_match(hits@, index as int, pos as int),
            None => forall|k: int| 0 <= k < index && k < hits.len() ==> !hits@[k],
        },
{
    let mut pos: usize = if index < hits.len() {
        index
    } else {
        hits.len()
    };
    while pos > 0
        invariant
            pos <= index,
            pos <= hits.len(),
            forall|k: int| pos <= k < index && k < hits.len() ==> !hits@[k],
        decreases pos,
    {
        pos -= 1;
        if hits[pos] {
            return Some(pos);
        }
    }
    None
}

/// Where step mode stands: the line shown and the bookmark.
#[derive(Debug, Clone, Copy, PartialEq, Eq)]
pub struct StepState {
    pub index: usize,
    pub bookmark: Option<usize>,
}

/// What step mode tells the user after a command.
#[derive(Debug, Clone, Copy, PartialEq, Eq)]
pub enum StepNote {
    /// Nothing.
    Silent,
    /// The last line is shown already.
    EndOfFile,
    /// The first line is shown already.
    StartOfFile,
    /// The line asked for does not exist; the index asked for is attached.
    OutOfRange(usize),
    /// The bookmark was set.
    BookmarkSet,
    /// There is no bookmark to jump to.
    NoBookmark,
}

/// The state and the note after a command that moves through a file of
/// `total` lines. Commands that search, help or quit leave the state as it
/// is.
pub open spec fn step_move(state: StepState, total: int, command: StepCommandView) -> (
    StepState,
    StepNote,
) {
    match command {
        StepCommandView::NextLine => if state.index + 1 < total {
            (StepState { index: (state.index + 1) as usize, ..state }, StepNote::Silent)
        } else {
            (state, StepNote::EndOfFile)
        },
        StepCommandView::PrevLine => if state.index > 0 {
            (StepState { index: (state.index - 1) as usize, ..state }, StepNote::Silent)
        } else {
            (state, StepNote::StartOfFile)
        },
        StepCommandView::Head => (StepState { index: 0, ..state }, StepNote::Silent),
        StepCommandView::Tail => (
            StepState {
                index: if total > 0 {
                    (total - 1) as usize
                } else {
                    0
                },
                ..state
            },
            StepNote::Silent,
        ),
        StepCommandView::Jump(target) => if target < total {
            (StepState { index: target, ..state }, StepNote::Silent)
        } else {
            (state, StepNote::OutOfRange(target))
        },
        StepCommandView::SetBookmark => (
            StepState { bookmark: Some(state.index), ..state },
            StepNote::BookmarkSet,
        ),
        StepCommandView::JumpBookmark => match state.bookmark {
            Some(mark) => (StepState { index: mark, ..state }, StepNote::Silent),
            None => (state, StepNote::NoBookmark),
        },
        _ => (state, StepNote::Silent),
    }
}

/// Applies a command of step mode to the state.
pub fn step_transition(state: StepState, total: usize, command: &StepCommand) -> (r: (
    StepState,
    StepNote,
))
    ensures
        r == step_move(state, total as int, command@),
{
    match command {
        StepCommand::NextLine => {
            if state.index < total && state.index + 1 < total {
                (StepState { index: state.index + 1, bookmark: state.bookmark }, StepNote::Silent)
            } else {
                (state, StepNote::EndOfFile)
            }
        },
        StepCommand::PrevLine => {
            if state.index > 0 {
                (StepState { index: state.index - 1, bookmark: state.bookmark }, StepNote::Silent)
            } else {
                (state, StepNote::StartOfFile)
            }
        },
        StepCommand::Head => (StepState { index: 0, bookmark: state.bookmark }, StepNote::Silent),
        StepCommand::Tail => (
            StepState { index: total.saturating_sub(1), bookmark: state.bookmark },
            StepNote::Silent,
        ),
        StepCommand::Jump(target) => {
            if *target < total {
                (StepState { index: *target, bookmark: state.bookmark }, StepNote::Silent)
            } else {
                (state, StepNote::OutOfRange(*target))
            }
        },
        StepCommand::SetBookmark => (
            StepState { index: state.index, bookmark: Some(state.index) },
            StepNote::BookmarkSet,
        ),
        StepCommand::JumpBookmark => match state.bookmark {
            Some(mark) => (StepState { index: mark, bookmark: state.bookmark }, StepNote::Silent),
            None => (state, StepNote::NoBookmark),
        },
        _ => (state, StepNote::Silent),
    }
}

/// A line with its number before it: the number in a column six wide, a bar,
/// and the text.
pub open spec fn numbered(number: nat, text: Seq<char>) -> Seq<char> {
    let digits = decimal(number);
    let pad = if digits.len() < 6 {
        Seq::new((6 - digits.len()) as nat, |i: int| ' ')
    } else {
        Seq::empty()
    };
    pad + digits + " | "@ + text
}

/// A line with its number before it.
pub fn numbered_line(number: usize, text: &str) -> (r: String)
    ensures
        r@ == numbered(number as nat, text@),
{
    let digits = decimal_chars(number as u128);
    let mut head: Vec<char> = Vec::new();
    let mut k: usize = digits.len();
    while k < 6
        invariant
            digits.len() <= k || head.len() == 0,
            k <= 6 || head.len() == 0,
            head.len() == k - digits.len(),
            forall|i: int| 0 <= i < head.len() ==> head@[i] == ' ',
        decreases 6 - k,
    {
        head.push(' ');
        k += 1;
    }
    let ghost pad = head@;
    push_all(&mut head, digits.as_slice());
    let mut out = string_of(head.as_slice());
    out.append(" | ");
    out.append(text);
    proof {
        let want = if digits@.len() < 6 {
            Seq::new((6 - digits@.len()) as nat, |i: int| ' ')
        } else {
            Seq::empty()
        };
        assert(pad =~= want);
    }
    out
}

/// An occurrence as it is highlighted: between `>>` and `<<`.
pub open spec fn marked(occurrence: Seq<char>) -> Seq<char> {
    ">>"@ + occurrence + "<<"@
}

/// The occurrences at `spans`, each with its highlighted form to stand in its
/// place.
pub open spec fn marked_matches(text: Seq<char>, spans: Seq<(usize, usize)>) -> Seq<
    crate::matcher::MatchView,
> {
    Seq::new(
        spans.len(),
        |i: int|
            crate::matcher::MatchView {
                start: spans[i].0 as int,
                end: spans[i].1 as int,
                replacement: marked(
                    crate::commands::matched_text(text, spans[i].0 as int, spans[i].1 as int),
                ),
            },
    )
}

/// `line` with every occurrence at `spans` highlighted.
pub open spec fn highlighted(line: Seq<char>, spans: Seq<(usize, usize)>) -> Seq<char> {
    if spans.len() == 0 {
        line
    } else {
        crate::commands::spliced(line, marked_matches(line, spans))
    }
}

/// Highlights the occurrences at `spans` in `line`.
///
/// `spans` are spans as a pattern matcher reports them: between character
/// boundaries of `line`, in order and without overlap.
pub fn highlight_spans(line: &str, spans: &Vec<(usize, usize)>) -> (r: String)
    requires
        spans_in_order(line@, spans@),
    ensures
        r@ == highlighted(line@, spans@),
{
    if spans.len() == 0 {
        return line.to_owned();
    }
    let index = TextIndex::new(line);
    let mut matches: Vec<crate::matcher::FoundMatch> = Vec::new();
    let mut i: usize = 0;
    while i < spans.len()
        invariant
            i <= spans.len(),
            index.wf(),
            index.chars@ == line@,
            spans_in_order(line@, spans@),
            matches.len() == i,
            forall|k: int|
                0 <= k < i ==> (#[trigger] matches@[k])@ == marked_matches(line@, spans@)[k],
        decreases spans.len() - i,
    {
        let span = spans[i];
        let from = index.char_at_offset(span.0);
        let until = index.char_at_offset(span.1);
        let replacement: String = match (from, until) {
            (Some(from), Some(until)) => {
                proof {
                    if until < from {
                        lemma_byte_offset_increases(line@, until as int, from as int);
                    }
                }
                let mut out = ">>".to_owned();
                out.append(
                    string_of(copy_range(index.chars.as_slice(), from, until).as_slice()).as_str(),
                );
                out.append("<<");
                out
            },
            _ => {
                assert(false);
                String::new()
            },
        };
        matches.push(crate::matcher::FoundMatch { start: span.0, end: span.1, replacement });
        i += 1;
    }
    proof {
        assert(crate::matcher::match_views(matches@) =~= marked_matches(line@, spans@));
        assert(crate::matcher::spans_of(matches@) =~= spans@);
        crate::commands::lemma_all_eligible(line@, crate::matcher::match_views(matches@));
    }
    match crate::commands::replace_matches(line, &matches, None, None, None) {
        Ok(outcome) => match outcome.new_text {
            Some(text) => text,
            None => line.to_owned(),
        },
        Err(_) => line.to_owned(),
    }
}

/// `line` with every match of the pattern `matcher` highlighted. Without a
/// pattern, and with one that the matcher refuses, the line is given back as
/// it is.
pub fn highlight_line(line: &str, matcher: Option<&str>) -> (r: String)
    ensures
        r@ == match matcher {
            Some(pattern) => match pattern_spans(pattern@, false, line@) {
                Some(spans) => highlighted(line@, spans),
                None => line@,
            },
            None => line@,
        },
{
    match matcher {
        Some(pattern) => match find_spans(pattern, false, line) {
            Ok(spans) => highlight_spans(line, &spans),
            Err(_) => line.to_owned(),
        },
        None => line.to_owned(),
    }
}

/// Whether the pattern `pattern` matches somewhere in `line`; `false` for a
/// pattern that the matcher refuses.
pub fn line_matches(pattern: &str, line: &str) -> (r: bool)
    ensures
        r == match pattern_spans(pattern@, false, line@) {
            Some(spans) => spans.len() > 0,
            None => false,
        },
{
    match find_spans(pattern, false, line) {
        Ok(spans) => spans.len() > 0,
        Err(_) => false,
    }
}

/// Which files a review looks at.
#[derive(Debug, Clone, Copy, PartialEq, Eq)]
pub enum ReviewRun {
    /// The first file is followed until the program is stopped.
    FollowFirst,
    /// Every file is shown once, in order.
    ShowEach,
    /// There is nothing to follow.
    Nothing,
}

/// Which of `files` files a review with `options` looks at: in follow mode
/// the first one, if there is one; else each in turn.
pub fn run(files: usize, options: &ReviewOptions) -> (r: ReviewRun)
    ensures
        r == if !options.follow {
            ReviewRun::ShowEach
        } else if files > 0 {
            ReviewRun::FollowFirst
        } else {
            ReviewRun::Nothing
        },
{
    if !options.follow {
        ReviewRun::ShowEach
    } else if files > 0 {
        ReviewRun::FollowFirst
    } else {
        ReviewRun::Nothing
    }
}

/// The pattern that a search typed in step mode compiles: after the prefix
/// `re:` what follows, trimmed, as a pattern; else the text itself, taken
/// literally.
pub open spec fn typed_pattern(typed: Seq<char>) -> Seq<char> {
    if has_prefix(typed, "re:"@) {
        trimmed(typed.skip("re:"@.len() as int), CharClass::Whitespace)
    } else {
        escaped_pattern(typed)
    }
}

/// The search typed in step mode names nothing to search for.
pub open spec fn typed_nothing(typed: Seq<char>) -> bool {
    if has_prefix(typed, "re:"@) {
        trimmed(typed.skip("re:"@.len() as int), CharClass::Whitespace).len() == 0
    } else {
        typed.len() == 0
    }
}

/// Why a search typed in step mode cannot be used.
#[derive(Debug, Clone)]
pub enum SearchError {
    /// Nothing follows the prefix `re:`.
    EmptyRegex,
    /// Nothing was typed.
    EmptyPattern,
    /// The matcher refuses the pattern; its message is attached.
    Invalid(String),
}

impl SearchError {
    /// The message for the user.
    pub fn message(&self) -> (r: String)
        ensures
            r@ == match self {
                SearchError::EmptyRegex => "regex pattern cannot be empty"@,
                SearchError::EmptyPattern => "pattern cannot be empty"@,
                SearchError::Invalid(detail) => "invalid regex: "@ + detail@,
            },
    {
        match self {
            SearchError::EmptyRegex => "regex pattern cannot be empty".to_owned(),
            SearchError::EmptyPattern => "pattern cannot be empty".to_owned(),
            SearchError::Invalid(detail) => {
                let mut out = "invalid regex: ".to_owned();
                out.append(detail.as_str());
                out
            },
        }
    }
}

/// The pattern for a search typed in step mode: what follows `re:` is a
/// pattern, anything else is searched for literally. Empty searches and
/// patterns that the matcher refuses are errors.
pub fn build_interactive_regex(pattern: &str) -> (r: Result<String, SearchError>)
    ensures
        match r {
            Ok(expr) => !typed_nothing(pattern@) && expr@ == typed_pattern(pattern@)
                && pattern_accepted(expr@),
            Err(SearchError::EmptyRegex) => typed_nothing(pattern@) && has_prefix(
                pattern@,
                "re:"@,
            ),
            Err(SearchError::EmptyPattern) => typed_nothing(pattern@) && !has_prefix(
                pattern@,
                "re:"@,
            ),
            Err(SearchError::Invalid(_)) => !typed_nothing(pattern@) && !pattern_accepted(
                typed_pattern(pattern@),
            ),
        },
{
    let chars = chars_of(pattern);
    let prefix = chars_of("re:");
    let expr: String = if starts_with(chars.as_slice(), prefix.as_slice()) {
        let rest = vstd::slice::slice_subrange(chars.as_slice(), prefix.len(), chars.len());
        assert(rest@ =~= pattern@.skip("re:"@.len() as int));
        let bounds = trim_bounds(rest, CharClass::Whitespace);
        if bounds.0 == bounds.1 {
            return Err(SearchError::EmptyRegex);
        }
        string_of(vstd::slice::slice_subrange(rest, bounds.0, bounds.1))
    } else {
        if chars.len() == 0 {
            return Err(SearchError::EmptyPattern);
        }
        escape_literal(pattern)
    };
    let empty = String::new();
    match find_spans(expr.as_str(), false, empty.as_str()) {
        Ok(_) => Ok(expr),
        Err(error) => Err(SearchError::Invalid(pattern_error_text(&error))),
    }
}

/// The heading over a part of a file.
pub open spec fn heading_of(slice: ReviewSlice) -> Seq<char> {
    match slice {
        ReviewSlice::Head(count) => "-- head ("@ + decimal(count as nat) + " lines) --"@,
        ReviewSlice::Tail(count) => "-- tail ("@ + decimal(count as nat) + " lines) --"@,
        ReviewSlice::Range { start, end } => "-- lines "@ + decimal(start as nat) + " to "@
            + decimal(end as nat) + " --"@,
        ReviewSlice::Around { line, context } => "-- around line "@ + decimal(line as nat)
            + " \u{b1} "@ + decimal(context as nat) + " --"@,
    }
}

fn number_text(n: usize) -> (r: String)
    ensures
        r@ == decimal(n as nat),
{
    string_of(decimal_chars(n as u128).as_slice())
}

/// The heading over a part of a file.
pub fn slice_heading(slice: ReviewSlice) -> (r: String)
    ensures
        r@ == heading_of(slice),
{
    match slice {
        ReviewSlice::Head(count) => {
            let mut out = "-- head (".to_owned();
            out.append(number_text(count).as_str());
            out.append(" lines) --");
            out
        },
        ReviewSlice::Tail(count) => {
            let mut out = "-- tail (".to_owned();
            out.append(number_text(count).as_str());
            out.append(" lines) --");
            out
        },
        ReviewSlice::Range { start, end } => {
            let mut out = "-- lines ".to_owned();
            out.append(number_text(start).as_str());
            out.append(" to ");
            out.append(number_text(end).as_str());
            out.append(" --");
            out
        },
        ReviewSlice::Around { line, context } => {
            let mut out = "-- around line ".to_owned();
            out.append(number_text(line).as_str());
            out.append(" \u{b1} ");
            out.append(number_text(context).as_str());
            out.append(" --");
            out
        },
    }
}

} // verus!

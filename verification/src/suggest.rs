//! Near-miss suggestions for a pattern that matched nothing.
//!
//! Each line of the text is scanned with a window of the pattern's length and
//! one two characters longer; the window closest to the pattern by edit
//! distance stands for the line, and the lines are ranked by it.

use vstd::prelude::*;
use crate::distance::{edit_distance, levenshtein_chars};
use crate::lines::{lines, rows, split_lines};
use vstd::string::StringExecFns;
use crate::chars::{trim_bounds, trimmed, CharClass};
use crate::lines::texts;
use crate::numbers::{decimal, decimal_chars};
use crate::text::{chars_of, copy_range, string_of};

verus! {

/// A place in the text that resembles the pattern.
#[derive(Debug, Clone)]
pub struct Suggestion {
    /// Edit distance between the snippet and the pattern.
    pub score: usize,
    /// Index of the line, counted from zero.
    pub line_idx: usize,
    /// Index of the snippet's first character in the line, counted from zero.
    pub column: usize,
    /// The whole line.
    pub line: String,
    /// The window of the line that is closest to the pattern.
    pub snippet: String,
}

/// The narrower of the two window widths: the pattern's length, at least one.
pub open spec fn narrow_width(pattern: Seq<char>) -> int {
    if pattern.len() == 0 {
        1
    } else {
        pattern.len() as int
    }
}

/// The width of the narrow or of the wide window.
pub open spec fn width_of(pattern: Seq<char>, wide: bool) -> int {
    if wide {
        narrow_width(pattern) + 2
    } else {
        narrow_width(pattern)
    }
}

/// The window of `line` that starts at `start` and is `width` long, cut at the
/// end of the line.
pub open spec fn window(line: Seq<char>, start: int, width: int) -> Seq<char> {
    line.subrange(
        start,
        if start + width < line.len() {
            start + width
        } else {
            line.len() as int
        },
    )
}

/// A window ranks before another by lower score, then by earlier start, then
/// by shorter length.
pub open spec fn ranks_before(
    score: int,
    start: int,
    len: int,
    other_score: int,
    other_start: int,
    other_len: int,
) -> bool {
    score < other_score || (score == other_score && (start < other_start || (start == other_start
        && len < other_len)))
}

/// The score of the window of `line` at `start`, narrow or wide.
pub open spec fn window_score(line: Seq<char>, pattern: Seq<char>, start: int, wide: bool) -> int {
    edit_distance(window(line, start, width_of(pattern, wide)), pattern) as int
}

/// No window of `line` that starts before `limit` ranks before the given one.
pub open spec fn unbeaten_upto(
    line: Seq<char>,
    pattern: Seq<char>,
    limit: int,
    score: int,
    start: int,
    len: int,
) -> bool {
    forall|st: int, wide: bool|
        0 <= st < limit ==> !ranks_before(
            #[trigger] window_score(line, pattern, st, wide),
            st,
            window(line, st, width_of(pattern, wide)).len() as int,
            score,
            start,
            len,
        )
}

/// `snippet`, found at `start` with `score`, is the best window of `line`: it
/// is one of the line's windows, the score is its edit distance to the
/// pattern, and no window of the line ranks before it.
pub open spec fn is_best_window(
    line: Seq<char>,
    pattern: Seq<char>,
    score: int,
    start: int,
    snippet: Seq<char>,
) -> bool {
    &&& 0 <= start < line.len()
    &&& exists|wide: bool| snippet == window(line, start, #[trigger] width_of(pattern, wide))
    &&& score == edit_distance(snippet, pattern)
    &&& unbeaten_upto(line, pattern, line.len() as int, score, start, snippet.len() as int)
}

/// A line has at most one best window.
pub proof fn lemma_best_window_unique(
    line: Seq<char>,
    pattern: Seq<char>,
    score1: int,
    start1: int,
    snippet1: Seq<char>,
    score2: int,
    start2: int,
    snippet2: Seq<char>,
)
    requires
        is_best_window(line, pattern, score1, start1, snippet1),
        is_best_window(line, pattern, score2, start2, snippet2),
    ensures
        score1 == score2,
        start1 == start2,
        snippet1 == snippet2,
{
    let w1 = choose|wide: bool| snippet1 == window(line, start1, #[trigger] width_of(pattern, wide));
    let w2 = choose|wide: bool| snippet2 == window(line, start2, #[trigger] width_of(pattern, wide));
    assert(window_score(line, pattern, start1, w1) == score1);
    assert(window_score(line, pattern, start2, w2) == score2);
    assert(snippet1 =~= line.subrange(start1, start1 + snippet1.len()));
    assert(snippet2 =~= line.subrange(start2, start2 + snippet2.len()));
}

fn ranks_first(
    score: usize,
    start: usize,
    len: usize,
    other_score: usize,
    other_start: usize,
    other_len: usize,
) -> (r: bool)
    ensures
        r == ranks_before(
            score as int,
            start as int,
            len as int,
            other_score as int,
            other_start as int,
            other_len as int,
        ),
{
    score < other_score || (score == other_score && (start < other_start || (start == other_start
        && len < other_len)))
}

/// The window of `line` at `start` of the given width, with its score.
fn score_window(line: &[char], pattern: &[char], start: usize, width: usize, Ghost(wide): Ghost<
    bool,
>) -> (r: (usize, Vec<char>))
    requires
        start < line.len(),
        width >= 1,
        width == width_of(pattern@, wide) || (width == usize::MAX && width_of(pattern@, wide)
            > usize::MAX),
    ensures
        r.1@ == window(line@, start as int, width_of(pattern@, wide)),
        r.0 == window_score(line@, pattern@, start as int, wide),
{
    let end: usize = if width >= line.len() - start {
        line.len()
    } else {
        start + width
    };
    let snippet = copy_range(line, start, end);
    let score = levenshtein_chars(snippet.as_slice(), pattern);
    (score, snippet)
}

/// The best window of `line` for `pattern`: its score, its start and its
/// characters. An empty line has none.
pub fn best_window_chars(line: &[char], pattern: &[char]) -> (r: Option<(usize, usize, Vec<char>)>)
    ensures
        r is None <==> line@.len() == 0,
        r matches Some(best) ==> is_best_window(
            line@,
            pattern@,
            best.0 as int,
            best.1 as int,
            best.2@,
        ),
{
    if line.len() == 0 {
        return None;
    }
    let narrow: usize = if pattern.len() == 0 {
        1
    } else {
        pattern.len()
    };
    let wide: usize = narrow.saturating_add(2);
    let first = score_window(line, pattern, 0, narrow, Ghost(false));
    let mut best_score: usize = first.0;
    let mut best_start: usize = 0;
    let mut best_snippet: Vec<char> = first.1;
    let ghost mut best_wide: bool = false;
    let second = score_window(line, pattern, 0, wide, Ghost(true));
    if ranks_first(second.0, 0, second.1.len(), best_score, best_start, best_snippet.len()) {
        best_score = second.0;
        best_snippet = second.1;
        proof {
            best_wide = true;
        }
    }
    let mut start: usize = 1;
    while start < line.len()
        invariant
            1 <= start <= line.len(),
            narrow == narrow_width(pattern@),
            wide == narrow + 2 || (wide == usize::MAX && narrow + 2 > usize::MAX),
            best_start < start,
            best_snippet@ == window(line@, best_start as int, width_of(pattern@, best_wide)),
            best_score == edit_distance(best_snippet@, pattern@),
            unbeaten_upto(
                line@,
                pattern@,
                start as int,
                best_score as int,
                best_start as int,
                best_snippet@.len() as int,
            ),
        decreases line.len() - start,
    {
        let a = score_window(line, pattern, start, narrow, Ghost(false));
        if ranks_first(a.0, start, a.1.len(), best_score, best_start, best_snippet.len()) {
            best_score = a.0;
            best_start = start;
            best_snippet = a.1;
            proof {
                best_wide = false;
            }
        }
        let b = score_window(line, pattern, start, wide, Ghost(true));
        if ranks_first(b.0, start, b.1.len(), best_score, best_start, best_snippet.len()) {
            best_score = b.0;
            best_start = start;
            best_snippet = b.1;
            proof {
                best_wide = true;
            }
        }
        start += 1;
    }
    Some((best_score, best_start, best_snippet))
}

/// The best window of `line` for `pattern`: its score, its start counted in
/// characters, and its text. An empty line has none.
pub fn best_window(line: &str, pattern: &str) -> (r: Option<(usize, usize, String)>)
    ensures
        r is None <==> line@.len() == 0,
        r matches Some(best) ==> is_best_window(
            line@,
            pattern@,
            best.0 as int,
            best.1 as int,
            best.2@,
        ),
{
    let line_chars = chars_of(line);
    let pattern_chars = chars_of(pattern);
    match best_window_chars(line_chars.as_slice(), pattern_chars.as_slice()) {
        None => None,
        Some(best) => Some((best.0, best.1, string_of(best.2.as_slice()))),
    }
}

/// The character of `s` at `idx`, or a space past its end.
pub open spec fn char_or_space(s: Seq<char>, idx: int) -> char {
    if 0 <= idx < s.len() {
        s[idx]
    } else {
        ' '
    }
}

/// The marker line under a snippet and a pattern laid side by side: a caret
/// where they differ, a space where they agree. The shorter of the two counts
/// as padded with spaces.
pub open spec fn diff_markers(snippet: Seq<char>, pattern: Seq<char>) -> Seq<char> {
    Seq::new(
        if snippet.len() >= pattern.len() {
            snippet.len()
        } else {
            pattern.len()
        },
        |idx: int|
            if char_or_space(snippet, idx) == char_or_space(pattern, idx) {
                ' '
            } else {
                '^'
            },
    )
}

/// The pattern, and under it the line of markers that shows where `snippet`
/// departs from it.
pub fn render_diff_hint(snippet: &str, pattern: &str) -> (r: (String, String))
    ensures
        r.0@ == pattern@,
        r.1@ == diff_markers(snippet@, pattern@),
{
    let snippet_chars = chars_of(snippet);
    let pattern_chars = chars_of(pattern);
    let width: usize = if snippet_chars.len() >= pattern_chars.len() {
        snippet_chars.len()
    } else {
        pattern_chars.len()
    };
    let mut markers: Vec<char> = Vec::new();
    let mut idx: usize = 0;
    while idx < width
        invariant
            idx <= width,
            snippet_chars@ == snippet@,
            pattern_chars@ == pattern@,
            markers.len() == idx,
            forall|k: int|
                0 <= k < idx ==> markers@[k] == if char_or_space(snippet@, k) == char_or_space(
                    pattern@,
                    k,
                ) {
                    ' '
                } else {
                    '^'
                },
        decreases width - idx,
    {
        let sc: char = if idx < snippet_chars.len() {
            snippet_chars[idx]
        } else {
            ' '
        };
        let pc: char = if idx < pattern_chars.len() {
            pattern_chars[idx]
        } else {
            ' '
        };
        markers.push(if sc == pc {
            ' '
        } else {
            '^'
        });
        idx += 1;
    }
    assert(markers@ =~= diff_markers(snippet@, pattern@));
    (string_of(pattern_chars.as_slice()), string_of(markers.as_slice()))
}

/// `a` comes before `b` in the ranking: by lower score, then by earlier line,
/// then by earlier column.
pub open spec fn outranks(a: Suggestion, b: Suggestion) -> bool {
    a.score < b.score || (a.score == b.score && (a.line_idx < b.line_idx || (a.line_idx
        == b.line_idx && a.column < b.column)))
}

/// `s` is the suggestion for line `idx` of `all_lines`.
pub open spec fn describes_line(
    s: Suggestion,
    all_lines: Seq<Seq<char>>,
    pattern: Seq<char>,
    idx: int,
) -> bool {
    &&& s.line_idx == idx
    &&& 0 <= idx < all_lines.len()
    &&& s.line@ == all_lines[idx]
    &&& is_best_window(all_lines[idx], pattern, s.score as int, s.column as int, s.snippet@)
}

/// What `collect_suggestions` returns for a non-empty pattern: at most `limit`
/// suggestions in strictly ascending rank, each for a non-empty line of the
/// text, and such that every non-empty line left out ranks after all of them
/// and was left out only because the limit was reached.
pub open spec fn is_ranking(
    out: Seq<Suggestion>,
    text: Seq<char>,
    pattern: Seq<char>,
    limit: int,
) -> bool {
    &&& out.len() <= limit
    &&& forall|k: int|
        0 <= k < out.len() ==> describes_line(
            #[trigger] out[k],
            lines(text),
            pattern,
            out[k].line_idx as int,
        )
    &&& forall|i: int, j: int| 0 <= i < j < out.len() ==> outranks(#[trigger] out[i], #[trigger] out[j])
    &&& forall|s: Suggestion, idx: int| #[trigger]
        describes_line(s, lines(text), pattern, idx) ==> {
            ||| exists|k: int| 0 <= k < out.len() && #[trigger] out[k].line_idx == idx
            ||| (out.len() == limit && forall|k: int|
                0 <= k < out.len() ==> outranks(#[trigger] out[k], s))
        }
}

fn comes_before(a: &Suggestion, b: &Suggestion) -> (r: bool)
    ensures
        r == outranks(*a, *b),
{
    a.score < b.score || (a.score == b.score && (a.line_idx < b.line_idx || (a.line_idx
        == b.line_idx && a.column < b.column)))
}

/// The closest candidates for `pattern` in `text`, best first, at most `limit`
/// of them. An empty pattern has none.
pub fn collect_suggestions(text: &str, pattern: &str, limit: usize) -> (out: Vec<Suggestion>)
    ensures
        pattern@.len() == 0 ==> out@.len() == 0,
        pattern@.len() > 0 ==> is_ranking(out@, text@, pattern@, limit as int),
{
    let pattern_chars = chars_of(pattern);
    if pattern_chars.len() == 0 {
        return Vec::new();
    }
    let text_chars = chars_of(text);
    let all_lines = split_lines(text_chars.as_slice());
    let ghost ls = lines(text@);
    let mut ranked: Vec<Suggestion> = Vec::new();
    let mut line_idx: usize = 0;
    while line_idx < all_lines.len()
        invariant
            line_idx <= all_lines.len(),
            rows(all_lines@) == ls,
            pattern_chars@ == pattern@,
            forall|k: int|
                0 <= k < ranked.len() ==> (#[trigger] ranked@[k]).line_idx < line_idx
                    && describes_line(ranked@[k], ls, pattern@, ranked@[k].line_idx as int),
            forall|i: int, j: int|
                0 <= i < j < ranked.len() ==> outranks(#[trigger] ranked@[i], #[trigger] ranked@[j]),
            forall|idx: int|
                0 <= idx < line_idx && ls[idx].len() > 0 ==> exists|k: int|
                    0 <= k < ranked.len() && #[trigger] ranked@[k].line_idx == idx,
        decreases all_lines.len() - line_idx,
    {
        assert(rows(all_lines@)[line_idx as int] == all_lines@[line_idx as int]@);
        let line = &all_lines[line_idx];
        match best_window_chars(line.as_slice(), pattern_chars.as_slice()) {
            None => {},
            Some(best) => {
                let entry = Suggestion {
                    score: best.0,
                    line_idx,
                    column: best.1,
                    line: string_of(line.as_slice()),
                    snippet: string_of(best.2.as_slice()),
                };
                let mut pos: usize = 0;
                while pos < ranked.len() && comes_before(&ranked[pos], &entry)
                    invariant
                        pos <= ranked.len(),
                        forall|k: int| 0 <= k < pos ==> outranks(#[trigger] ranked@[k], entry),
                    decreases ranked.len() - pos,
                {
                    pos += 1;
                }
                let ghost before = ranked@;
                ranked.insert(pos, entry);
                proof {
                    assert forall|i: int, j: int| 0 <= i < j < ranked.len() implies outranks(
                        #[trigger] ranked@[i],
                        #[trigger] ranked@[j],
                    ) by {
                        if j == pos {
                            assert(ranked@[i] == before[i]);
                        } else if i == pos {
                            assert(ranked@[j] == before[j - 1]);
                            assert(before[pos as int].line_idx < line_idx);
                            if j - 1 > pos {
                                assert(outranks(before[pos as int], before[j - 1]));
                            }
                        } else {
                            let bi = if i < pos { i } else { i - 1 };
                            let bj = if j < pos { j } else { j - 1 };
                            assert(ranked@[i] == before[bi]);
                            assert(ranked@[j] == before[bj]);
                        }
                    }
                    assert forall|k: int| 0 <= k < ranked.len() implies (#[trigger] ranked@[k]).line_idx
                        < line_idx + 1 && describes_line(
                        ranked@[k],
                        ls,
                        pattern@,
                        ranked@[k].line_idx as int,
                    ) by {
                        if k < pos {
                            assert(ranked@[k] == before[k]);
                        } else if k > pos {
                            assert(ranked@[k] == before[k - 1]);
                        }
                    }
                    assert forall|idx: int| 0 <= idx < line_idx + 1 && ls[idx].len() > 0 implies exists|
                        k: int,
                    |
                        0 <= k < ranked.len() && #[trigger] ranked@[k].line_idx == idx by {
                        if idx == line_idx {
                            assert(ranked@[pos as int].line_idx == idx);
                        } else {
                            let k0 = choose|k: int|
                                0 <= k < before.len() && #[trigger] before[k].line_idx == idx;
                            let k1 = if k0 < pos { k0 } else { k0 + 1 };
                            assert(ranked@[k1] == before[k0]);
                            assert(ranked@[k1].line_idx == idx);
                        }
                    }
                }
            },
        }
        line_idx += 1;
    }
    let ghost full = ranked@;
    if ranked.len() > limit {
        ranked.truncate(limit);
    }
    proof {
        assert forall|s: Suggestion, idx: int| #[trigger]
            describes_line(s, ls, pattern@, idx) implies ({
            ||| exists|k: int| 0 <= k < ranked.len() && #[trigger] ranked@[k].line_idx == idx
            ||| (ranked.len() == limit && forall|k: int|
                0 <= k < ranked.len() ==> outranks(#[trigger] ranked@[k], s))
        }) by {
            let k0 = choose|k: int| 0 <= k < full.len() && #[trigger] full[k].line_idx == idx;
            assert(ls[idx].len() > 0);
            assert(0 <= k0 < full.len() && full[k0].line_idx == idx);
            if k0 < ranked.len() {
                assert(ranked@[k0] == full[k0]);
            } else {
                lemma_best_window_unique(
                    ls[idx],
                    pattern@,
                    s.score as int,
                    s.column as int,
                    s.snippet@,
                    full[k0].score as int,
                    full[k0].column as int,
                    full[k0].snippet@,
                );
                assert forall|k: int| 0 <= k < ranked.len() implies outranks(
                    #[trigger] ranked@[k],
                    s,
                ) by {
                    assert(ranked@[k] == full[k]);
                    assert(outranks(full[k], full[k0]));
                }
            }
        }
    }
    ranked
}

/// How many candidates are shown for a pattern that matched nothing.
pub const SUGGESTION_LIMIT: usize = 3;

/// The lines that present one candidate: where it is and how well it fits,
/// the snippet, the pattern, and under the pattern the markers that show where
/// the two differ.
pub open spec fn candidate_lines(s: Suggestion, pattern: Seq<char>) -> Seq<Seq<char>> {
    seq![
        "  - line "@ + decimal((s.line_idx + 1) as nat) + " column "@ + decimal(
            (s.column + 1) as nat,
        ) + " (score "@ + decimal(s.score as nat) + "): "@ + trimmed(s.line@, CharClass::Whitespace),
        "    snippet: "@ + s.snippet@,
        "    pattern: "@ + pattern,
        "             "@ + diff_markers(s.snippet@, pattern),
    ]
}

/// The lines that present the candidates `ranking`, in order.
pub open spec fn ranking_lines(ranking: Seq<Suggestion>, pattern: Seq<char>) -> Seq<Seq<char>>
    decreases ranking.len(),
{
    if ranking.len() == 0 {
        Seq::empty()
    } else {
        ranking_lines(ranking.drop_last(), pattern) + candidate_lines(ranking.last(), pattern)
    }
}

/// The report on a pattern that matched nothing: a heading and the lines of
/// the candidates, or the one line that says that nothing similar was found.
pub open spec fn miss_report(ranking: Seq<Suggestion>, pattern: Seq<char>) -> Seq<Seq<char>> {
    if ranking.len() == 0 {
        seq!["no similar text found for '"@ + pattern + "'"@]
    } else {
        seq!["no exact matches; closest candidates:"@] + ranking_lines(ranking, pattern)
    }
}

/// The report on the pattern `pattern`, which matched nothing in `text`: the
/// three closest candidates, best first, each with its place, its snippet and
/// the markers of its differences from the pattern.
pub fn report_suggestions(text: &str, pattern: &str) -> (lines: Vec<String>)
    ensures
        exists|ranking: Seq<Suggestion>|
            (pattern@.len() == 0 ==> ranking.len() == 0) && (pattern@.len() > 0 ==> is_ranking(
                ranking,
                text@,
                pattern@,
                SUGGESTION_LIMIT as int,
            )) && #[trigger] miss_report(ranking, pattern@) == texts(lines@),
{
    let suggestions = collect_suggestions(text, pattern, SUGGESTION_LIMIT);
    let mut lines: Vec<String> = Vec::new();
    if suggestions.len() == 0 {
        let mut line = "no similar text found for '".to_owned();
        line.append(pattern);
        line.append("'");
        lines.push(line);
        assert(texts(lines@) =~= miss_report(suggestions@, pattern@));
        assert(miss_report(suggestions@, pattern@) == texts(lines@));
        return lines;
    }
    lines.push("no exact matches; closest candidates:".to_owned());
    let ghost heading = texts(lines@);
    assert(heading =~= seq!["no exact matches; closest candidates:"@]);
    assert(suggestions@.take(0) =~= Seq::<Suggestion>::empty());
    let mut i: usize = 0;
    while i < suggestions.len()
        invariant
            i <= suggestions.len(),
            heading == seq!["no exact matches; closest candidates:"@],
            texts(lines@) == heading + ranking_lines(suggestions@.take(i as int), pattern@),
        decreases suggestions.len() - i,
    {
        let suggestion = &suggestions[i];
        proof {
            assert(suggestions@.take(i + 1).drop_last() =~= suggestions@.take(i as int));
            assert(suggestions@.take(i + 1).last() == *suggestion);
        }
        let ghost before = texts(lines@);
        let chars = chars_of(suggestion.line.as_str());
        let bounds = trim_bounds(chars.as_slice(), CharClass::Whitespace);
        let bare = string_of(vstd::slice::slice_subrange(chars.as_slice(), bounds.0, bounds.1));
        let mut first = "  - line ".to_owned();
        first.append(string_of(decimal_chars(suggestion.line_idx as u128 + 1).as_slice()).as_str());
        first.append(" column ");
        first.append(string_of(decimal_chars(suggestion.column as u128 + 1).as_slice()).as_str());
        first.append(" (score ");
        first.append(string_of(decimal_chars(suggestion.score as u128).as_slice()).as_str());
        first.append("): ");
        first.append(bare.as_str());
        let mut second = "    snippet: ".to_owned();
        second.append(suggestion.snippet.as_str());
        let hint = render_diff_hint(suggestion.snippet.as_str(), pattern);
        let mut third = "    pattern: ".to_owned();
        third.append(hint.0.as_str());
        let mut fourth = "             ".to_owned();
        fourth.append(hint.1.as_str());
        lines.push(first);
        lines.push(second);
        lines.push(third);
        lines.push(fourth);
        proof {
            assert(texts(lines@) =~= before + candidate_lines(*suggestion, pattern@));
        }
        i += 1;
    }
    assert(suggestions@.take(suggestions.len() as int) =~= suggestions@);
    assert(texts(lines@) == miss_report(suggestions@, pattern@));
    lines
}

} // verus!

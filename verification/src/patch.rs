//! Unified-diff patches: splitting a patch file into per-file segments,
//! classifying each by its header pair, and applying one to a text.
//!
//! Hunks are parsed and applied by the `diffy` crate. This module does what
//! surrounds that: the segmentation of a multi-file patch, the meaning of the
//! `---` / `+++` labels, and the care for line endings around the application.

use vstd::prelude::*;
use vstd::string::StringExecFns;

use crate::chars::{trim_bounds, trimmed, without_trailing, count_trailing, CharClass};
use crate::lineending::{
    detect_line_ending_style, normalize_to_lf, restore_from_lf, style_of, with_lf_as,
    with_line_breaks,
};
use crate::lines::{chunks, rows, split_chunks};
use crate::numbers::{decimal, decimal_chars};
use crate::text::{
    chars_of, copy_range, find_from, first_occurrence, has_prefix, lf, occurs_at, opt_view,
    same_chars, starts_with, string_of,
};

verus! {

/// What a per-file patch does to its file.
#[derive(Debug, Clone, Copy, PartialEq, Eq)]
pub enum PatchKind {
    Modify,
    Create,
    Delete,
    Rename,
}

/// One per-file patch of a patch file.
#[derive(Debug, Clone)]
pub struct FilePatch {
    /// The patch file it came from.
    pub source: String,
    /// Its position in that file, counted from one.
    pub index: usize,
    /// Its text: the header pair and the hunks.
    pub patch_text: String,
    pub kind: PatchKind,
    pub old_path: Option<String>,
    pub new_path: Option<String>,
}

/// One segment of a patch file: the two labels of its header pair and its
/// text.
#[derive(Debug, Clone)]
pub struct Segment {
    pub old_label: String,
    pub new_label: String,
    pub body: String,
}

/// Why a patch could not be read or applied.
#[derive(Debug, Clone)]
pub enum PatchError {
    /// A segment has no `---` line.
    MissingOldHeader,
    /// A segment has no `+++` line.
    MissingNewHeader,
    /// Both labels of a header pair mean "absent".
    MissingLabels,
    /// The hunks of the segment with this number are malformed; the parser's
    /// message is attached.
    Malformed { index: usize, detail: String },
    /// The segment with this number has a header pair that names no file.
    UnsupportedPaths { index: usize },
    /// A hunk does not fit the text; the applier's message is attached.
    HunkMismatch(String),
    /// A patch that deletes its file leaves text behind.
    DeleteNotEmpty,
}

impl PatchError {
    /// The message for the user.
    pub fn message(&self) -> (r: String)
        ensures
            r@ == match self {
                PatchError::MissingOldHeader => "patch segment missing --- header"@,
                PatchError::MissingNewHeader => "patch segment missing +++ header"@,
                PatchError::MissingLabels => "patch is missing both old and new file labels"@,
                PatchError::Malformed { index, detail } => "failed to parse patch segment "@
                    + decimal(*index as nat) + ": "@ + detail@,
                PatchError::UnsupportedPaths { index } => "segment "@ + decimal(*index as nat)
                    + " has unsupported paths"@,
                PatchError::HunkMismatch(detail) => "failed to apply patch: "@ + detail@,
                PatchError::DeleteNotEmpty => "delete patch did not result in empty content"@,
            },
    {
        match self {
            PatchError::MissingOldHeader => "patch segment missing --- header".to_owned(),
            PatchError::MissingNewHeader => "patch segment missing +++ header".to_owned(),
            PatchError::MissingLabels => "patch is missing both old and new file labels".to_owned(),
            PatchError::Malformed { index, detail } => {
                let mut out = "failed to parse patch segment ".to_owned();
                out.append(string_of(decimal_chars(*index as u128).as_slice()).as_str());
                out.append(": ");
                out.append(detail.as_str());
                out
            },
            PatchError::UnsupportedPaths { index } => {
                let mut out = "segment ".to_owned();
                out.append(string_of(decimal_chars(*index as u128).as_slice()).as_str());
                out.append(" has unsupported paths");
                out
            },
            PatchError::HunkMismatch(detail) => {
                let mut out = "failed to apply patch: ".to_owned();
                out.append(detail.as_str());
                out
            },
            PatchError::DeleteNotEmpty => "delete patch did not result in empty content".to_owned(),
        }
    }
}

/// `s` without a leading `a/` or `b/`.
pub open spec fn without_side_prefix(s: Seq<char>) -> Seq<char> {
    if s.len() >= 2 && (s[0] == 'a' || s[0] == 'b') && s[1] == '/' {
        s.skip(2)
    } else {
        s
    }
}

/// `s` without any leading run of `./`.
pub open spec fn without_dot_slash(s: Seq<char>) -> Seq<char>
    decreases s.len(),
{
    if s.len() >= 2 && s[0] == '.' && s[1] == '/' {
        without_dot_slash(s.skip(2))
    } else {
        s
    }
}

/// The path that a header label names: the label trimmed, unquoted and without
/// its `a/`, `b/` and `./` prefixes. `/dev/null` and an empty path mean that
/// the file is absent.
pub open spec fn path_of_label(label: Seq<char>) -> Option<Seq<char>> {
    let bare = trimmed(label, CharClass::Whitespace);
    if bare == "/dev/null"@ {
        None
    } else {
        let path = without_dot_slash(without_side_prefix(trimmed(bare, CharClass::Quote)));
        if path.len() == 0 {
            None
        } else {
            Some(path)
        }
    }
}

fn strip_dot_slash(s: &[char]) -> (r: usize)
    ensures
        r <= s.len(),
        s@.skip(r as int) == without_dot_slash(s@),
{
    let mut k: usize = 0;
    assert(s@.skip(0) =~= s@);
    while s.len() - k >= 2 && s[k] == '.' && s[k + 1] == '/'
        invariant
            k <= s.len(),
            without_dot_slash(s@) == without_dot_slash(s@.skip(k as int)),
        decreases s.len() - k,
    {
        assert(s@.skip(k as int).skip(2) =~= s@.skip(k + 2));
        k += 2;
    }
    k
}

/// The path that the header label `label` names, if it names one.
pub fn label_to_path(label: &str) -> (r: Option<String>)
    ensures
        match r {
            Some(path) => path_of_label(label@) == Some(path@),
            None => path_of_label(label@) is None,
        },
{
    let chars = chars_of(label);
    let outer = trim_bounds(chars.as_slice(), CharClass::Whitespace);
    let bare = vstd::slice::slice_subrange(chars.as_slice(), outer.0, outer.1);
    let absent = chars_of("/dev/null");
    if same_chars(bare, absent.as_slice()) {
        return None;
    }
    let inner = trim_bounds(bare, CharClass::Quote);
    let unquoted = vstd::slice::slice_subrange(bare, inner.0, inner.1);
    let sided: usize = if unquoted.len() >= 2 && (unquoted[0] == 'a' || unquoted[0] == 'b')
        && unquoted[1] == '/' {
        2
    } else {
        0
    };
    let stripped = vstd::slice::slice_subrange(unquoted, sided, unquoted.len());
    assert(stripped@ =~= without_side_prefix(unquoted@));
    let dots = strip_dot_slash(stripped);
    let cleaned = copy_range(stripped, dots, stripped.len());
    assert(cleaned@ =~= without_dot_slash(stripped@));
    if cleaned.len() == 0 {
        None
    } else {
        Some(string_of(cleaned.as_slice()))
    }
}

/// What stands in `p` after its last slash: all of `p` where it has none.
pub open spec fn open_part(p: Seq<char>) -> Seq<char>
    decreases p.len(),
{
    if p.len() == 0 || p.last() == '/' {
        Seq::empty()
    } else {
        open_part(p.drop_last()).push(p.last())
    }
}

/// A part of a path counts as a component: an empty part, left by a doubled
/// or a final slash, does not, and a lone dot counts only at the very
/// beginning of the path.
pub open spec fn counts_as_component(part: Seq<char>, first: bool) -> bool {
    part.len() > 0 && (part != seq!['.'] || first)
}

/// The components of `p` that a slash has closed, in order.
pub open spec fn closed_components(p: Seq<char>) -> Seq<Seq<char>>
    decreases p.len(),
{
    if p.len() == 0 {
        Seq::empty()
    } else if p.last() == '/' {
        let before = p.drop_last();
        if counts_as_component(open_part(before), !before.contains('/')) {
            closed_components(before).push(open_part(before))
        } else {
            closed_components(before)
        }
    } else {
        closed_components(p.drop_last())
    }
}

/// The components of the path `p`: its parts between slashes, without the
/// empty ones and without the dots that stand for the directory itself.
pub open spec fn components_of(p: Seq<char>) -> Seq<Seq<char>> {
    if counts_as_component(open_part(p), !p.contains('/')) {
        closed_components(p).push(open_part(p))
    } else {
        closed_components(p)
    }
}

/// Two paths name the same file: both start at the root or neither does, and
/// they have the same components. A doubled slash, a final slash and a dot
/// inside a path make no difference.
pub open spec fn same_path(a: Seq<char>, b: Seq<char>) -> bool {
    (a.len() > 0 && a[0] == '/') == (b.len() > 0 && b[0] == '/') && components_of(a)
        == components_of(b)
}

fn path_components(p: &[char]) -> (out: Vec<Vec<char>>)
    ensures
        rows(out@) == components_of(p@),
{
    let mut out: Vec<Vec<char>> = Vec::new();
    let mut current: Vec<char> = Vec::new();
    let mut seen_slash = false;
    let mut i: usize = 0;
    proof {
        assert(p@.take(0) =~= Seq::<char>::empty());
        assert(rows(out@) =~= Seq::<Seq<char>>::empty());
        assert(current@ =~= open_part(p@.take(0)));
    }
    while i < p.len()
        invariant
            i <= p.len(),
            rows(out@) == closed_components(p@.take(i as int)),
            current@ == open_part(p@.take(i as int)),
            seen_slash == p@.take(i as int).contains('/'),
        decreases p.len() - i,
    {
        let c = p[i];
        let ghost before = p@.take(i as int);
        let ghost now = p@.take(i + 1);
        proof {
            assert(now.drop_last() =~= before);
            assert(now.last() == c);
            if before.contains('/') {
                let w = choose|w: int| 0 <= w < before.len() && before[w] == '/';
                assert(now[w] == '/');
            }
            if now.contains('/') && c != '/' {
                let w = choose|w: int| 0 <= w < now.len() && now[w] == '/';
                assert(before[w] == '/');
            }
            if c == '/' {
                assert(now[i as int] == '/');
            }
        }
        if c == '/' {
            let lone_dot = current.len() == 1 && current[0] == '.';
            proof {
                if lone_dot {
                    assert(current@ =~= seq!['.']);
                } else if current@ == seq!['.'] {
                    assert(current@.len() == 1);
                }
            }
            if current.len() > 0 && (!lone_dot || !seen_slash) {
                let ghost had = rows(out@);
                out.push(current);
                assert(rows(out@) =~= had.push(open_part(before)));
            }
            current = Vec::new();
            seen_slash = true;
            assert(current@ =~= open_part(now));
        } else {
            current.push(c);
        }
        i += 1;
    }
    proof {
        assert(p@.take(p.len() as int) =~= p@);
    }
    let lone_dot = current.len() == 1 && current[0] == '.';
    proof {
        if lone_dot {
            assert(current@ =~= seq!['.']);
        } else if current@ == seq!['.'] {
            assert(current@.len() == 1);
        }
    }
    if current.len() > 0 && (!lone_dot || !seen_slash) {
        let ghost had = rows(out@);
        out.push(current);
        assert(rows(out@) =~= had.push(open_part(p@)));
    }
    out
}

/// Whether two paths name the same file.
pub fn paths_agree(a: &str, b: &str) -> (r: bool)
    ensures
        r == same_path(a@, b@),
{
    let first = chars_of(a);
    let second = chars_of(b);
    let a_rooted = first.len() > 0 && first[0] == '/';
    let b_rooted = second.len() > 0 && second[0] == '/';
    if a_rooted != b_rooted {
        return false;
    }
    let left = path_components(first.as_slice());
    let right = path_components(second.as_slice());
    if left.len() != right.len() {
        assert(rows(left@).len() != rows(right@).len());
        return false;
    }
    let mut i: usize = 0;
    while i < left.len()
        invariant
            i <= left.len(),
            left.len() == right.len(),
            rows(left@) == components_of(a@),
            rows(right@) == components_of(b@),
            (a@.len() > 0 && a@[0] == '/') == (b@.len() > 0 && b@[0] == '/'),
            forall|k: int| 0 <= k < i ==> left@[k]@ == right@[k]@,
        decreases left.len() - i,
    {
        if !same_chars(left[i].as_slice(), right[i].as_slice()) {
            assert(rows(left@)[i as int] == left@[i as int]@);
            assert(rows(right@)[i as int] == right@[i as int]@);
            return false;
        }
        i += 1;
    }
    assert(rows(left@) =~= rows(right@));
    true
}

/// What the header pair (`old_label`, `new_label`) makes of a patch: its kind
/// and the two paths. A pair with both files absent makes nothing.
pub open spec fn classification(old_label: Seq<char>, new_label: Seq<char>) -> Option<
    (PatchKind, Option<Seq<char>>, Option<Seq<char>>),
> {
    match (path_of_label(old_label), path_of_label(new_label)) {
        (Some(old), Some(new)) => if same_path(old, new) {
            Some((PatchKind::Modify, Some(old), Some(new)))
        } else {
            Some((PatchKind::Rename, Some(old), Some(new)))
        },
        (None, Some(new)) => Some((PatchKind::Create, None, Some(new))),
        (Some(old), None) => Some((PatchKind::Delete, Some(old), None)),
        (None, None) => None,
    }
}

/// Classifies a patch by its header pair: both files present and the same,
/// component by component, is a modification, both present and different a
/// rename, only the new one a
/// creation, only the old one a deletion. With neither present the pair is
/// refused.
pub fn classify_paths(old_label: &str, new_label: &str) -> (r: Result<
    (PatchKind, Option<String>, Option<String>),
    PatchError,
>)
    ensures
        match r {
            Ok(found) => classification(old_label@, new_label@) == Some(
                (found.0, opt_view(found.1), opt_view(found.2)),
            ),
            Err(PatchError::MissingLabels) => classification(old_label@, new_label@) is None,
            Err(_) => false,
        },
{
    let old_path = label_to_path(old_label);
    let new_path = label_to_path(new_label);
    match (old_path, new_path) {
        (Some(old), Some(new)) => {
            if paths_agree(old.as_str(), new.as_str()) {
                Ok((PatchKind::Modify, Some(old), Some(new)))
            } else {
                Ok((PatchKind::Rename, Some(old), Some(new)))
            }
        },
        (None, Some(new)) => Ok((PatchKind::Create, None, Some(new))),
        (Some(old), None) => Ok((PatchKind::Delete, Some(old), None)),
        (None, None) => Err(PatchError::MissingLabels),
    }
}

/// Every header pair is classified as exactly one of the four kinds, except
/// the pair with both files absent, which is classified as none.
pub proof fn lemma_classification_total(old_label: Seq<char>, new_label: Seq<char>)
    ensures
        classification(old_label, new_label) is None <==> (path_of_label(old_label) is None
            && path_of_label(new_label) is None),
        classification(old_label, new_label) matches Some(c) ==> {
            &&& (c.0 == PatchKind::Modify <==> (c.1 is Some && c.2 is Some && same_path(
                c.1->0,
                c.2->0,
            )))
            &&& (c.0 == PatchKind::Rename <==> (c.1 is Some && c.2 is Some && !same_path(
                c.1->0,
                c.2->0,
            )))
            &&& (c.0 == PatchKind::Create <==> (c.1 is None && c.2 is Some))
            &&& (c.0 == PatchKind::Delete <==> (c.1 is Some && c.2 is None))
            &&& c.1 == path_of_label(old_label)
            &&& c.2 == path_of_label(new_label)
        },
{
}

/// A segment as the contracts see it.
pub struct SegmentView {
    pub old_label: Seq<char>,
    pub new_label: Seq<char>,
    pub body: Seq<char>,
}

impl View for Segment {
    type V = SegmentView;

    open spec fn view(&self) -> SegmentView {
        SegmentView { old_label: self.old_label@, new_label: self.new_label@, body: self.body@ }
    }
}

/// The views of a sequence of segments.
pub open spec fn segment_views(segments: Seq<Segment>) -> Seq<SegmentView> {
    Seq::new(segments.len(), |i: int| segments[i]@)
}

/// The state of the scan of a patch file between two lines: the segments that
/// are complete, and the labels and the text of the segment that is open.
pub struct ScanState {
    pub done: Seq<SegmentView>,
    pub in_segment: bool,
    pub old_label: Option<Seq<char>>,
    pub new_label: Option<Seq<char>>,
    pub buffer: Seq<char>,
}

/// `s` without its carriage returns.
pub open spec fn without_cr(s: Seq<char>) -> Seq<char>
    decreases s.len(),
{
    if s.len() == 0 {
        s
    } else if s.last() == '\r' {
        without_cr(s.drop_last())
    } else {
        without_cr(s.drop_last()).push(s.last())
    }
}

/// The state before the first line.
pub open spec fn scan_start() -> ScanState {
    ScanState {
        done: Seq::empty(),
        in_segment: false,
        old_label: None,
        new_label: None,
        buffer: Seq::empty(),
    }
}

/// The segments once the open segment, if there is one, is closed. A segment
/// that lacks one of its two headers cannot be closed.
pub open spec fn closed(state: ScanState) -> Result<Seq<SegmentView>, PatchError> {
    if !state.in_segment {
        Ok(state.done)
    } else {
        match (state.old_label, state.new_label) {
            (Some(old_label), Some(new_label)) => Ok(
                state.done.push(SegmentView { old_label, new_label, body: state.buffer }),
            ),
            (None, _) => Err(PatchError::MissingOldHeader),
            (Some(_), None) => Err(PatchError::MissingNewHeader),
        }
    }
}

/// The text that follows the four characters of a header prefix, trimmed.
pub open spec fn header_label(line: Seq<char>) -> Seq<char> {
    trimmed(line.skip(4), CharClass::Whitespace)
}

/// The state after one more line of the patch file. A `diff --` line closes
/// the open segment; a `--- ` line closes it and opens a new one; inside a
/// segment the first `+++ ` line gives the new label; every line of a
/// segment but a `diff --` line is kept in its text, without carriage returns.
pub open spec fn scan_step(state: ScanState, chunk: Seq<char>) -> Result<ScanState, PatchError> {
    let cleaned = without_cr(chunk);
    let line = without_trailing(cleaned, CharClass::LineFeed);
    if has_prefix(line, "diff --"@) {
        match closed(state) {
            Ok(done) => Ok(
                ScanState {
                    done,
                    in_segment: false,
                    old_label: None,
                    new_label: None,
                    buffer: Seq::empty(),
                },
            ),
            Err(e) => Err(e),
        }
    } else if has_prefix(line, "--- "@) {
        match closed(state) {
            Ok(done) => Ok(
                ScanState {
                    done,
                    in_segment: true,
                    old_label: Some(header_label(line)),
                    new_label: None,
                    buffer: cleaned,
                },
            ),
            Err(e) => Err(e),
        }
    } else if !state.in_segment {
        Ok(state)
    } else if state.new_label is None && has_prefix(line, "+++ "@) {
        Ok(
            ScanState {
                new_label: Some(header_label(line)),
                buffer: state.buffer + cleaned,
                ..state
            },
        )
    } else {
        Ok(ScanState { buffer: state.buffer + cleaned, ..state })
    }
}

/// The state after the lines `cs`, read in order.
pub open spec fn scanned(cs: Seq<Seq<char>>) -> Result<ScanState, PatchError>
    decreases cs.len(),
{
    if cs.len() == 0 {
        Ok(scan_start())
    } else {
        match scanned(cs.drop_last()) {
            Ok(state) => scan_step(state, cs.last()),
            Err(e) => Err(e),
        }
    }
}

/// The segments of the patch file `text`.
pub open spec fn segments_of(text: Seq<char>) -> Result<Seq<SegmentView>, PatchError> {
    match scanned(chunks(text)) {
        Ok(state) => closed(state),
        Err(e) => Err(e),
    }
}

fn remove_cr(chunk: &[char]) -> (out: Vec<char>)
    ensures
        out@ == without_cr(chunk@),
{
    let mut out: Vec<char> = Vec::new();
    let mut i: usize = 0;
    assert(chunk@.take(0) =~= Seq::<char>::empty());
    while i < chunk.len()
        invariant
            i <= chunk.len(),
            out@ == without_cr(chunk@.take(i as int)),
        decreases chunk.len() - i,
    {
        assert(chunk@.take(i + 1).drop_last() =~= chunk@.take(i as int));
        if chunk[i] != '\r' {
            out.push(chunk[i]);
        }
        i += 1;
    }
    assert(chunk@.take(chunk.len() as int) =~= chunk@);
    out
}

/// Closes the open segment: moves its labels and its text into a new segment
/// at the end of `segments`. A segment that lacks a header is refused.
pub fn finalize_segment(
    segments: &mut Vec<Segment>,
    buffer: &mut String,
    old_label: &mut Option<String>,
    new_label: &mut Option<String>,
) -> (r: Result<(), PatchError>)
    ensures
        *final(old_label) is None,
        match r {
            Ok(()) => {
                &&& *old(old_label) is Some
                &&& *old(new_label) is Some
                &&& *final(new_label) is None
                &&& final(buffer)@ == Seq::<char>::empty()
                &&& final(segments)@.len() == old(segments)@.len() + 1
                &&& final(segments)@.drop_last() == old(segments)@
                &&& final(segments)@.last()@ == SegmentView {
                    old_label: (*old(old_label))->0@,
                    new_label: (*old(new_label))->0@,
                    body: old(buffer)@,
                }
            },
            Err(PatchError::MissingOldHeader) => *old(old_label) is None && *final(segments)
                == *old(segments),
            Err(PatchError::MissingNewHeader) => *old(old_label) is Some && *old(new_label) is None
                && *final(segments) == *old(segments),
            Err(_) => false,
        },
{
    let old_text = match old_label.take() {
        Some(label) => label,
        None => {
            return Err(PatchError::MissingOldHeader);
        },
    };
    let new_text = match new_label.take() {
        Some(label) => label,
        None => {
            return Err(PatchError::MissingNewHeader);
        },
    };
    let mut body = String::new();
    std::mem::swap(buffer, &mut body);
    segments.push(Segment { old_label: old_text, new_label: new_text, body });
    assert(segments@.drop_last() =~= old(segments)@);
    Ok(())
}

/// What the executable scan holds stands for `state`.
pub open spec fn holds_state(
    segments: Seq<Segment>,
    in_segment: bool,
    old_label: Option<String>,
    new_label: Option<String>,
    buffer: Seq<char>,
    state: ScanState,
) -> bool {
    &&& segment_views(segments) == state.done
    &&& in_segment == state.in_segment
    &&& opt_view(old_label) == state.old_label
    &&& opt_view(new_label) == state.new_label
    &&& buffer == state.buffer
}

fn header_label_of(line: &[char]) -> (out: String)
    requires
        line@.len() >= 4,
    ensures
        out@ == header_label(line@),
{
    let rest = vstd::slice::slice_subrange(line, 4, line.len());
    let bounds = trim_bounds(rest, CharClass::Whitespace);
    string_of(vstd::slice::slice_subrange(rest, bounds.0, bounds.1))
}

/// Splits the text of a patch file into its per-file segments.
pub fn split_segments(text: &str) -> (r: Result<Vec<Segment>, PatchError>)
    ensures
        match r {
            Ok(segments) => segments_of(text@) == Ok::<Seq<SegmentView>, PatchError>(
                segment_views(segments@),
            ),
            Err(e) => segments_of(text@) == Err::<Seq<SegmentView>, PatchError>(e),
        },
{
    let chars = chars_of(text);
    let pieces = split_chunks(chars.as_slice());
    let ghost cs = chunks(text@);
    let diff_prefix = chars_of("diff --");
    let old_prefix = chars_of("--- ");
    let new_prefix = chars_of("+++ ");
    proof {
        reveal_strlit("--- ");
        reveal_strlit("+++ ");
    }
    let mut segments: Vec<Segment> = Vec::new();
    let mut buffer = String::new();
    let mut old_label: Option<String> = None;
    let mut new_label: Option<String> = None;
    let mut in_segment = false;
    let mut i: usize = 0;
    assert(cs.take(0) =~= Seq::<Seq<char>>::empty());
    assert(segment_views(segments@) =~= Seq::<SegmentView>::empty());
    while i < pieces.len()
        invariant
            i <= pieces.len(),
            rows(pieces@) == cs,
            cs == chunks(text@),
            diff_prefix@ == "diff --"@,
            old_prefix@ == "--- "@,
            new_prefix@ == "+++ "@,
            "--- "@.len() == 4,
            "+++ "@.len() == 4,
            scanned(cs.take(i as int)) is Ok,
            holds_state(
                segments@,
                in_segment,
                old_label,
                new_label,
                buffer@,
                scanned(cs.take(i as int))->Ok_0,
            ),
        decreases pieces.len() - i,
    {
        let ghost state = scanned(cs.take(i as int))->Ok_0;
        proof {
            assert(rows(pieces@)[i as int] == pieces@[i as int]@);
            assert(cs.take(i + 1).drop_last() =~= cs.take(i as int));
            assert(cs.take(i + 1).last() == pieces@[i as int]@);
        }
        let cleaned = remove_cr(pieces[i].as_slice());
        let feeds = count_trailing(cleaned.as_slice(), CharClass::LineFeed);
        let line = vstd::slice::slice_subrange(cleaned.as_slice(), 0, cleaned.len() - feeds);
        assert(line@ =~= without_trailing(cleaned@, CharClass::LineFeed));
        if starts_with(line, diff_prefix.as_slice()) {
            if in_segment {
                let ghost before = segments@;
                match finalize_segment(&mut segments, &mut buffer, &mut old_label, &mut new_label) {
                    Ok(()) => {
                        assert(segment_views(segments@) =~= segment_views(before).push(
                            segments@.last()@,
                        ));
                    },
                    Err(e) => {
                        proof {
                            assert(closed(state) == Err::<Seq<SegmentView>, PatchError>(e));
                            assert(scanned(cs.take(i + 1)) == Err::<ScanState, PatchError>(e));
                            lemma_scan_fails(cs, i + 1);
                        }
                        return Err(e);
                    },
                }
                buffer = String::new();
                old_label = None;
                new_label = None;
                in_segment = false;
            } else {
                buffer = String::new();
                old_label = None;
                new_label = None;
            }
        } else if starts_with(line, old_prefix.as_slice()) {
            if in_segment {
                let ghost before = segments@;
                match finalize_segment(&mut segments, &mut buffer, &mut old_label, &mut new_label) {
                    Ok(()) => {
                        assert(segment_views(segments@) =~= segment_views(before).push(
                            segments@.last()@,
                        ));
                    },
                    Err(e) => {
                        proof {
                            assert(closed(state) == Err::<Seq<SegmentView>, PatchError>(e));
                            assert(scanned(cs.take(i + 1)) == Err::<ScanState, PatchError>(e));
                            lemma_scan_fails(cs, i + 1);
                        }
                        return Err(e);
                    },
                }
            }
            buffer = string_of(cleaned.as_slice());
            old_label = Some(header_label_of(line));
            new_label = None;
            in_segment = true;
        } else if !in_segment {
        } else if new_label.is_none() && starts_with(line, new_prefix.as_slice()) {
            new_label = Some(header_label_of(line));
            buffer.append(string_of(cleaned.as_slice()).as_str());
        } else {
            buffer.append(string_of(cleaned.as_slice()).as_str());
        }
        i += 1;
    }
    assert(rows(pieces@).len() == pieces.len());
    assert(cs.take(pieces.len() as int) =~= cs);
    if in_segment {
        let ghost before = segments@;
        match finalize_segment(&mut segments, &mut buffer, &mut old_label, &mut new_label) {
            Ok(()) => {
                assert(segment_views(segments@) =~= segment_views(before).push(segments@.last()@));
            },
            Err(e) => {
                return Err(e);
            },
        }
    }
    Ok(segments)
}

/// Once the scan has failed on a prefix of the lines it has failed for good.
proof fn lemma_scan_fails(cs: Seq<Seq<char>>, k: int)
    requires
        0 <= k <= cs.len(),
        scanned(cs.take(k)) is Err,
    ensures
        scanned(cs) == scanned(cs.take(k)),
    decreases cs.len(),
{
    if k < cs.len() {
        assert(cs.drop_last().take(k) =~= cs.take(k));
        lemma_scan_fails(cs.drop_last(), k);
    } else {
        assert(cs.take(k) =~= cs);
    }
}

/// The largest line number or line count that a hunk header may hold: half
/// the largest number, so that a start and a count never add up to more than
/// the machine can count.
pub open spec fn header_limit() -> nat {
    (usize::MAX / 2) as nat
}

/// The number that the decimal digits at the end of `line` spell: zero where
/// `line` does not end with a digit.
pub open spec fn run_value(line: Seq<char>) -> nat
    decreases line.len(),
{
    if line.len() == 0 || !('0' <= line.last() <= '9') {
        0
    } else {
        run_value(line.drop_last()) * 10 + (line.last() as nat - '0' as nat) as nat
    }
}

/// No run of digits in `line` spells a number above the limit.
pub open spec fn numbers_fit(line: Seq<char>) -> bool {
    forall|k: int| 0 <= k <= line.len() ==> run_value(#[trigger] line.take(k)) <= header_limit()
}

/// Where the ranges of the hunk header `line` end: at the first ` @@` after
/// the opening `@@ `, or at the end of the line where there is none.
pub open spec fn ranges_end(line: Seq<char>) -> int {
    if exists|at: int| first_occurrence(line, " @@"@, 3, at) {
        choose|at: int| first_occurrence(line, " @@"@, 3, at)
    } else {
        line.len() as int
    }
}

/// The ranges of the hunk header `line`: what stands between the opening
/// `@@ ` and the closing ` @@`.
pub open spec fn header_ranges(line: Seq<char>) -> Seq<char> {
    line.subrange(3, ranges_end(line))
}

/// Every hunk header of the patch text `text`, that is every line that begins
/// with `@@ `, holds only numbers within the limit in its ranges.
pub open spec fn headers_fit(text: Seq<char>) -> bool {
    forall|i: int|
        0 <= i < chunks(text).len() && has_prefix(#[trigger] chunks(text)[i], "@@ "@)
            ==> numbers_fit(header_ranges(chunks(text)[i]))
}

fn ranges_fit(line: &[char]) -> (r: bool)
    requires
        has_prefix(line@, "@@ "@),
    ensures
        r == numbers_fit(header_ranges(line@)),
{
    let close = chars_of(" @@");
    proof {
        reveal_strlit("@@ ");
        reveal_strlit(" @@");
    }
    let end: usize = match find_from(line, close.as_slice(), 3) {
        Some(at) => {
            assert(ranges_end(line@) == at) by {
                let other = ranges_end(line@);
                assert(first_occurrence(line@, " @@"@, 3, other));
                if other < at {
                    assert(occurs_at(line@, " @@"@, other));
                }
                if at < other {
                    assert(occurs_at(line@, " @@"@, at as int));
                }
            }
            at
        },
        None => line.len(),
    };
    let part = vstd::slice::slice_subrange(line, 3, end);
    line_numbers_fit(part)
}

fn line_numbers_fit(line: &[char]) -> (r: bool)
    ensures
        r == numbers_fit(line@),
{
    let limit: u128 = (usize::MAX / 2) as u128;
    let mut value: u128 = 0;
    let mut i: usize = 0;
    assert(line@.take(0) =~= Seq::<char>::empty());
    while i < line.len()
        invariant
            i <= line.len(),
            limit == header_limit(),
            value == run_value(line@.take(i as int)),
            value <= limit,
            forall|k: int| 0 <= k <= i ==> run_value(#[trigger] line@.take(k)) <= header_limit(),
        decreases line.len() - i,
    {
        let c = line[i];
        proof {
            assert(line@.take(i + 1).drop_last() =~= line@.take(i as int));
            assert(line@.take(i + 1).last() == c);
        }
        if '0' <= c && c <= '9' {
            let digit: u128 = (c as u32 - '0' as u32) as u128;
            value = value * 10 + digit;
            if value > limit {
                return false;
            }
        } else {
            value = 0;
        }
        i += 1;
    }
    true
}

/// Whether every hunk header of the patch text `text` holds only numbers
/// within the limit. A patch with a larger number is not handed to the
/// parser, which adds the start of a hunk and its length.
pub fn hunk_headers_fit(text: &str) -> (r: bool)
    ensures
        r == headers_fit(text@),
{
    let chars = chars_of(text);
    let pieces = split_chunks(chars.as_slice());
    let marker = chars_of("@@ ");
    let ghost cs = chunks(text@);
    let mut i: usize = 0;
    while i < pieces.len()
        invariant
            i <= pieces.len(),
            rows(pieces@) == cs,
            cs == chunks(text@),
            marker@ == "@@ "@,
            forall|k: int|
                0 <= k < i && has_prefix(#[trigger] cs[k], "@@ "@) ==> numbers_fit(
                    header_ranges(cs[k]),
                ),
        decreases pieces.len() - i,
    {
        let piece = pieces[i].as_slice();
        assert(rows(pieces@)[i as int] == pieces@[i as int]@);
        if starts_with(piece, marker.as_slice()) && !ranges_fit(piece) {
            return false;
        }
        i += 1;
    }
    assert(rows(pieces@).len() == pieces.len());
    true
}

/// The message for a patch whose hunk headers hold too large a number.
pub open spec fn header_defect() -> Seq<char> {
    "hunk header holds a number that is too large"@
}

/// Whether `text` is a well-formed single-file patch: a header and hunks that
/// the patch parser accepts.
pub uninterp spec fn patch_parses(text: Seq<char>) -> bool;

/// The patch text `text` can be read: its hunk headers hold no number that
/// is too large, and the patch parser accepts it.
pub open spec fn patch_readable(text: Seq<char>) -> bool {
    headers_fit(text) && patch_parses(text)
}

/// The text that applying the well-formed patch `patch` to `base` gives;
/// `None` where a hunk of the patch does not fit `base`.
pub uninterp spec fn patched(base: Seq<char>, patch: Seq<char>) -> Option<Seq<char>>;

/// How the application of a patch ended.
pub enum Application {
    /// The patch applied; the new text.
    Applied(String),
    /// The patch text is malformed; the parser's message.
    Unparsable(String),
    /// A hunk did not fit; the applier's message.
    Rejected(String),
}

/// `diffy::Patch::from_str` parses a patch; the message of its error is handed
/// on where it refuses the text. Nothing is claimed of the wording. The parser
/// adds the start and the length of a hunk range, both read from the digits
/// of a line that begins with `@@ `; a text with a number there that is too
/// large for the sum is kept out.
#[verifier::external_body]
fn parse_defect(text: &str) -> (r: Option<String>)
    requires
        headers_fit(text@),
    ensures
        r is None <==> patch_parses(text@),
{
    diffy::Patch::from_str(text).err().map(|error| error.to_string())
}

/// `diffy::Patch::from_str` parses `patch`, and `diffy::apply` applies what
/// was parsed to `base`. Each of the two may refuse; the message of the error
/// is handed on. A patch with too large a number in a hunk header is kept
/// out, as for the parser alone.
#[verifier::external_body]
fn apply_hunks(base: &str, patch: &str) -> (r: Application)
    requires
        headers_fit(patch@),
    ensures
        match r {
            Application::Applied(text) => patch_parses(patch@) && patched(base@, patch@) == Some(
                text@,
            ),
            Application::Unparsable(_) => !patch_parses(patch@),
            Application::Rejected(_) => patch_parses(patch@) && patched(base@, patch@) is None,
        },
{
    match diffy::Patch::from_str(patch) {
        Err(error) => Application::Unparsable(error.to_string()),
        Ok(parsed) => match diffy::apply(base, &parsed) {
            Ok(text) => Application::Applied(text),
            Err(error) => Application::Rejected(error.to_string()),
        },
    }
}

/// What `apply_patch_preserving_newlines` owes.
pub open spec fn application_contract(
    text: Seq<char>,
    patch: Seq<char>,
    r: Result<String, PatchError>,
) -> bool {
    if !headers_fit(patch) {
        r matches Err(PatchError::Malformed { index, detail }) && index == 1 && detail@
            == header_defect()
    } else if !patch_parses(patch) {
        r matches Err(PatchError::Malformed { index, detail }) && index == 1
    } else {
        match patched(with_line_breaks(text, lf()), patch) {
            Some(new_text) => r matches Ok(restored) && restored@ == with_lf_as(
                new_text,
                style_of(text).terminator(),
            ),
            None => r matches Err(PatchError::HunkMismatch(_)),
        }
    }
}

/// Applies the single-file patch `patch_text` to `text`. The text is brought
/// to LF line endings before the hunks are applied, and the result is given
/// back in the dominant line-ending style of `text`. A patch whose hunk
/// headers hold too large a number is refused as malformed.
pub fn apply_patch_preserving_newlines(text: &str, patch_text: &str) -> (r: Result<
    String,
    PatchError,
>)
    ensures
        application_contract(text@, patch_text@, r),
{
    if !hunk_headers_fit(patch_text) {
        return Err(
            PatchError::Malformed {
                index: 1,
                detail: "hunk header holds a number that is too large".to_owned(),
            },
        );
    }
    let style = detect_line_ending_style(text);
    let normalized = normalize_to_lf(text);
    assert(lf() =~= seq!['\n']);
    match apply_hunks(normalized.as_str(), patch_text) {
        Application::Applied(new_text) => Ok(restore_from_lf(new_text, style)),
        Application::Unparsable(detail) => Err(PatchError::Malformed { index: 1, detail }),
        Application::Rejected(detail) => Err(PatchError::HunkMismatch(detail)),
    }
}

/// A per-file patch as the contracts see it.
pub struct FilePatchView {
    pub source: Seq<char>,
    pub index: int,
    pub patch_text: Seq<char>,
    pub kind: PatchKind,
    pub old_path: Option<Seq<char>>,
    pub new_path: Option<Seq<char>>,
}

impl View for FilePatch {
    type V = FilePatchView;

    open spec fn view(&self) -> FilePatchView {
        FilePatchView {
            source: self.source@,
            index: self.index as int,
            patch_text: self.patch_text@,
            kind: self.kind,
            old_path: opt_view(self.old_path),
            new_path: opt_view(self.new_path),
        }
    }
}

/// The segment with number `index` (counted from one) of the patch file
/// `source` makes the per-file patch `patch`.
pub open spec fn patch_of_segment(
    source: Seq<char>,
    index: int,
    segment: SegmentView,
    patch: FilePatchView,
) -> bool {
    &&& patch_readable(segment.body)
    &&& classification(segment.old_label, segment.new_label) == Some(
        (patch.kind, patch.old_path, patch.new_path),
    )
    &&& patch.source == source
    &&& patch.index == index
    &&& patch.patch_text == segment.body
}

/// The segment can be made into a per-file patch.
pub open spec fn segment_usable(segment: SegmentView) -> bool {
    patch_readable(segment.body) && classification(segment.old_label, segment.new_label) is Some
}

/// What `load_file_patches` owes for a patch file whose segments are
/// `segments`: a patch for every segment, in order, or the error of the first
/// segment that cannot be used.
pub open spec fn patches_contract(
    source: Seq<char>,
    segments: Seq<SegmentView>,
    r: Result<Vec<FilePatch>, PatchError>,
) -> bool {
    match r {
        Ok(patches) => patches@.len() == segments.len() && forall|i: int|
            0 <= i < segments.len() ==> patch_of_segment(
                source,
                i + 1,
                segments[i],
                (#[trigger] patches@[i])@,
            ),
        Err(PatchError::Malformed { index, detail }) => 1 <= index <= segments.len()
            && !patch_readable(segments[index - 1].body) && (!headers_fit(
            segments[index - 1].body,
        ) ==> detail@ == header_defect()) && forall|i: int|
            0 <= i < index - 1 ==> segment_usable(#[trigger] segments[i]),
        Err(PatchError::UnsupportedPaths { index }) => 1 <= index <= segments.len()
            && patch_readable(segments[index - 1].body) && classification(
            segments[index - 1].old_label,
            segments[index - 1].new_label,
        ) is None && forall|i: int| 0 <= i < index - 1 ==> segment_usable(#[trigger] segments[i]),
        Err(_) => false,
    }
}

/// Reads the per-file patches out of the text `raw` of the patch file
/// `source`. A file that cannot be split into segments is refused with the
/// error of the split; otherwise every segment must hold well-formed hunks and
/// a header pair that names a file.
pub fn load_file_patches(source: &str, raw: &str) -> (r: Result<Vec<FilePatch>, PatchError>)
    ensures
        match segments_of(raw@) {
            Ok(segments) => patches_contract(source@, segments, r),
            Err(e) => r == Err::<Vec<FilePatch>, PatchError>(e),
        },
{
    let segments = match split_segments(raw) {
        Ok(segments) => segments,
        Err(e) => {
            return Err(e);
        },
    };
    let ghost views = segment_views(segments@);
    let mut patches: Vec<FilePatch> = Vec::new();
    let mut idx: usize = 0;
    while idx < segments.len()
        invariant
            idx <= segments.len(),
            views == segment_views(segments@),
            segments_of(raw@) == Ok::<Seq<SegmentView>, PatchError>(views),
            patches.len() == idx,
            forall|i: int|
                0 <= i < idx ==> patch_of_segment(
                    source@,
                    i + 1,
                    views[i],
                    (#[trigger] patches@[i])@,
                ),
            forall|i: int| 0 <= i < idx ==> segment_usable(#[trigger] views[i]),
        decreases segments.len() - idx,
    {
        let segment = &segments[idx];
        assert(views[idx as int] == segment@);
        if !hunk_headers_fit(segment.body.as_str()) {
            return Err(
                PatchError::Malformed {
                    index: idx + 1,
                    detail: "hunk header holds a number that is too large".to_owned(),
                },
            );
        }
        if let Some(detail) = parse_defect(segment.body.as_str()) {
            return Err(PatchError::Malformed { index: idx + 1, detail });
        }
        let (kind, old_path, new_path) = match classify_paths(
            segment.old_label.as_str(),
            segment.new_label.as_str(),
        ) {
            Ok(found) => found,
            Err(_) => {
                return Err(PatchError::UnsupportedPaths { index: idx + 1 });
            },
        };
        patches.push(
            FilePatch {
                source: source.to_owned(),
                index: idx + 1,
                patch_text: segment.body.clone(),
                kind,
                old_path,
                new_path,
            },
        );
        idx += 1;
    }
    Ok(patches)
}

} // verus!

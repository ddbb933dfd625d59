//! Line diffs: the changed line ranges of a diff, its one-line summary, and
//! its bounded rendering.
//!
//! The diff itself is computed by the `similar` crate. What it reports is
//! named here; the functions of this module are specified over the named
//! operations.

use vstd::prelude::*;
use crate::logging::{LineSpan, LineSpanKind};
use crate::numbers::{decimal, push_decimal};
use crate::options::PagerMode;
use crate::text::string_of;

verus! {

/// How a diff is shown.
#[derive(Debug, Clone)]
pub struct DiffDisplayConfig {
    pub context: usize,
    pub colorize: bool,
    pub pager_mode: PagerMode,
    pub interactive: bool,
}

/// What one operation of a diff does.
#[derive(Debug, Clone, Copy, PartialEq, Eq)]
pub enum DiffTag {
    Equal,
    Delete,
    Insert,
    Replace,
}

/// One operation of a line diff: the lines `old_start..old_end` of the old
/// text against the lines `new_start..new_end` of the new one, both counted
/// from zero.
#[derive(Debug, Clone, Copy, PartialEq, Eq)]
pub struct DiffOp {
    pub tag: DiffTag,
    pub old_start: usize,
    pub old_end: usize,
    pub new_start: usize,
    pub new_end: usize,
}

/// The operations of the line diff between `old` and `new`, in order.
pub uninterp spec fn diff_ops(old: Seq<char>, new: Seq<char>) -> Seq<DiffOp>;

/// Each range of each operation runs forward.
pub open spec fn ranges_forward(ops: Seq<DiffOp>) -> bool {
    forall|i: int|
        0 <= i < ops.len() ==> (#[trigger] ops[i]).old_start <= ops[i].old_end && ops[i].new_start
            <= ops[i].new_end
}

/// `similar::TextDiff::from_lines` diffs the two texts line by line, and
/// `TextDiff::ops` gives the operations; each is copied with its tag and its
/// two ranges (`DiffOp::tag`, `old_range`, `new_range`). Each range is made
/// from a start and a length, so it runs forward. Nothing is claimed of the
/// order of the operations: the crate moves insertions and deletions about
/// after the diff is made, and a range that carries no lines may be left
/// behind at a stale position.
#[verifier::external_body]
fn line_ops(old: &str, new: &str) -> (r: Vec<DiffOp>)
    ensures
        r@ == diff_ops(old@, new@),
        ranges_forward(r@),
{
    let diff = similar::TextDiff::from_lines(old, new);
    diff.ops().iter().map(|op| DiffOp {
        tag: match op.tag() {
            similar::DiffTag::Equal => DiffTag::Equal,
            similar::DiffTag::Delete => DiffTag::Delete,
            similar::DiffTag::Insert => DiffTag::Insert,
            similar::DiffTag::Replace => DiffTag::Replace,
        },
        old_start: op.old_range().start,
        old_end: op.old_range().end,
        new_start: op.new_range().start,
        new_end: op.new_range().end,
    }).collect()
}

/// The span that an operation leaves in the summary of changed ranges: the
/// old lines of a deletion or replacement are modified, the new lines of an
/// insertion are added, unchanged lines and empty ranges leave nothing.
pub open spec fn span_of_op(op: DiffOp) -> Option<LineSpan> {
    match op.tag {
        DiffTag::Equal => None,
        DiffTag::Delete | DiffTag::Replace => if op.old_start < op.old_end {
            Some(
                LineSpan {
                    kind: LineSpanKind::Modified,
                    start: (op.old_start + 1) as usize,
                    end: op.old_end,
                },
            )
        } else {
            None
        },
        DiffTag::Insert => if op.new_start < op.new_end {
            Some(
                LineSpan {
                    kind: LineSpanKind::Added,
                    start: (op.new_start + 1) as usize,
                    end: op.new_end,
                },
            )
        } else {
            None
        },
    }
}

/// The spans of the operations `ops`, in order.
pub open spec fn spans_of_ops(ops: Seq<DiffOp>) -> Seq<LineSpan>
    decreases ops.len(),
{
    if ops.len() == 0 {
        Seq::empty()
    } else {
        match span_of_op(ops.last()) {
            Some(span) => spans_of_ops(ops.drop_last()).push(span),
            None => spans_of_ops(ops.drop_last()),
        }
    }
}

/// The changed line ranges that the operations `ops` describe.
pub fn spans_from_ops(ops: &Vec<DiffOp>) -> (spans: Vec<LineSpan>)
    ensures
        spans@ == spans_of_ops(ops@),
{
    let mut spans: Vec<LineSpan> = Vec::new();
    let mut i: usize = 0;
    assert(ops@.take(0) =~= Seq::<DiffOp>::empty());
    while i < ops.len()
        invariant
            i <= ops.len(),
            spans@ == spans_of_ops(ops@.take(i as int)),
        decreases ops.len() - i,
    {
        let op = ops[i];
        proof {
            assert(ops@.take(i + 1).drop_last() =~= ops@.take(i as int));
            assert(ops@.take(i + 1).last() == op);
        }
        match op.tag {
            DiffTag::Equal => {},
            DiffTag::Delete | DiffTag::Replace => {
                if op.old_start < op.old_end {
                    spans.push(
                        LineSpan {
                            kind: LineSpanKind::Modified,
                            start: op.old_start + 1,
                            end: op.old_end,
                        },
                    );
                }
            },
            DiffTag::Insert => {
                if op.new_start < op.new_end {
                    spans.push(
                        LineSpan {
                            kind: LineSpanKind::Added,
                            start: op.new_start + 1,
                            end: op.new_end,
                        },
                    );
                }
            },
        }
        i += 1;
    }
    assert(ops@.take(ops.len() as int) =~= ops@);
    spans
}

/// Every span runs forward, and of two spans of the same kind the earlier one
/// ends before the later one starts.
pub open spec fn spans_ascending(spans: Seq<LineSpan>) -> bool {
    &&& forall|k: int| 0 <= k < spans.len() ==> 1 <= (#[trigger] spans[k]).start <= spans[k].end
    &&& forall|i: int, j: int|
        0 <= i < j < spans.len() && (#[trigger] spans[i]).kind == (#[trigger] spans[j]).kind
            ==> spans[i].end < spans[j].start
}

/// `span` can follow the spans `kept`: it runs forward from line one or
/// later, and it starts after every span of its kind among them has ended.
pub open spec fn follows(kept: Seq<LineSpan>, span: LineSpan) -> bool {
    &&& 1 <= span.start <= span.end
    &&& forall|k: int|
        0 <= k < kept.len() && (#[trigger] kept[k]).kind == span.kind ==> kept[k].end < span.start
}

/// The spans of `spans` that are in order, read from the first: a span is
/// kept where it can follow those kept before it, and left out where it
/// cannot.
pub open spec fn kept_in_order(spans: Seq<LineSpan>) -> Seq<LineSpan>
    decreases spans.len(),
{
    if spans.len() == 0 {
        Seq::empty()
    } else {
        let before = kept_in_order(spans.drop_last());
        if follows(before, spans.last()) {
            before.push(spans.last())
        } else {
            before
        }
    }
}

/// The spans that are kept never overlap within their kind: of two spans of
/// one kind the earlier one ends before the later one starts, whatever the
/// spans they were taken from.
pub proof fn lemma_kept_spans_ascend(spans: Seq<LineSpan>)
    ensures
        spans_ascending(kept_in_order(spans)),
        kept_in_order(spans).len() <= spans.len(),
    decreases spans.len(),
{
    if spans.len() > 0 {
        lemma_kept_spans_ascend(spans.drop_last());
        let before = kept_in_order(spans.drop_last());
        let now = kept_in_order(spans);
        assert forall|k: int| 0 <= k < now.len() implies 1 <= (#[trigger] now[k]).start
            <= now[k].end by {
            if k < before.len() {
                assert(now[k] == before[k]);
            }
        }
        assert forall|i: int, j: int|
            0 <= i < j < now.len() && (#[trigger] now[i]).kind == (#[trigger] now[j]).kind implies now[i].end
            < now[j].start by {
            assert(now[i] == before[i]);
            if j < before.len() {
                assert(now[j] == before[j]);
            }
        }
    }
}

/// Spans that are in order are all kept.
pub proof fn lemma_ascending_spans_kept(spans: Seq<LineSpan>)
    requires
        spans_ascending(spans),
    ensures
        kept_in_order(spans) == spans,
    decreases spans.len(),
{
    if spans.len() > 0 {
        let rest = spans.drop_last();
        assert(spans_ascending(rest)) by {
            assert forall|k: int| 0 <= k < rest.len() implies 1 <= (#[trigger] rest[k]).start
                <= rest[k].end by {
                assert(rest[k] == spans[k]);
            }
            assert forall|i: int, j: int|
                0 <= i < j < rest.len() && (#[trigger] rest[i]).kind == (#[trigger] rest[j]).kind implies rest[i].end
                < rest[j].start by {
                assert(rest[i] == spans[i]);
                assert(rest[j] == spans[j]);
            }
        }
        lemma_ascending_spans_kept(rest);
        assert(follows(rest, spans.last())) by {
            assert(spans.last() == spans[spans.len() - 1]);
            assert forall|k: int|
                0 <= k < rest.len() && (#[trigger] rest[k]).kind == spans.last().kind implies rest[k].end
                < spans.last().start by {
                assert(rest[k] == spans[k]);
            }
        }
        assert(rest.push(spans.last()) =~= spans);
    }
}

/// The spans of `spans` that are in order: a span that does not start after
/// the spans of its kind before it is left out. Spans that are in order come
/// back as they are.
pub fn ordered_spans(spans: &Vec<LineSpan>) -> (kept: Vec<LineSpan>)
    ensures
        kept@ == kept_in_order(spans@),
        spans_ascending(kept@),
        spans_ascending(spans@) ==> kept@ == spans@,
{
    let mut kept: Vec<LineSpan> = Vec::new();
    let mut last_modified: usize = 0;
    let mut last_added: usize = 0;
    let mut i: usize = 0;
    assert(spans@.take(0) =~= Seq::<LineSpan>::empty());
    while i < spans.len()
        invariant
            i <= spans.len(),
            kept@ == kept_in_order(spans@.take(i as int)),
            forall|k: int|
                0 <= k < kept@.len() ==> (match (#[trigger] kept@[k]).kind {
                    LineSpanKind::Modified => kept@[k].end <= last_modified,
                    LineSpanKind::Added => kept@[k].end <= last_added,
                }),
            last_modified == 0 || exists|k: int|
                0 <= k < kept@.len() && (#[trigger] kept@[k]).kind == LineSpanKind::Modified
                    && kept@[k].end == last_modified,
            last_added == 0 || exists|k: int|
                0 <= k < kept@.len() && (#[trigger] kept@[k]).kind == LineSpanKind::Added
                    && kept@[k].end == last_added,
        decreases spans.len() - i,
    {
        let span = spans[i];
        let ghost before = kept@;
        proof {
            assert(spans@.take(i + 1).drop_last() =~= spans@.take(i as int));
            assert(spans@.take(i + 1).last() == span);
        }
        let last: usize = match span.kind {
            LineSpanKind::Modified => last_modified,
            LineSpanKind::Added => last_added,
        };
        let fits = 1 <= span.start && span.start <= span.end && last < span.start;
        proof {
            if fits {
                assert(follows(before, span));
            } else if 1 <= span.start && span.start <= span.end {
                assert(last != 0);
                let w = choose|k: int|
                    0 <= k < before.len() && (#[trigger] before[k]).kind == span.kind
                        && before[k].end == last;
                assert(!follows(before, span));
            }
        }
        if fits {
            kept.push(span);
            match span.kind {
                LineSpanKind::Modified => {
                    last_modified = span.end;
                },
                LineSpanKind::Added => {
                    last_added = span.end;
                },
            }
            proof {
                assert(kept@[before.len() as int] == span);
                assert forall|k: int| 0 <= k < kept@.len() implies (match (#[trigger] kept@[k]).kind {
                    LineSpanKind::Modified => kept@[k].end <= last_modified,
                    LineSpanKind::Added => kept@[k].end <= last_added,
                }) by {
                    if k < before.len() {
                        assert(kept@[k] == before[k]);
                    }
                }
                if last_modified != 0 && span.kind != LineSpanKind::Modified {
                    let w = choose|k: int|
                        0 <= k < before.len() && (#[trigger] before[k]).kind
                            == LineSpanKind::Modified && before[k].end == last_modified;
                    assert(kept@[w] == before[w]);
                }
                if last_added != 0 && span.kind != LineSpanKind::Added {
                    let w = choose|k: int|
                        0 <= k < before.len() && (#[trigger] before[k]).kind == LineSpanKind::Added
                            && before[k].end == last_added;
                    assert(kept@[w] == before[w]);
                }
            }
        }
        i += 1;
    }
    proof {
        assert(spans@.take(spans.len() as int) =~= spans@);
        lemma_kept_spans_ascend(spans@);
        if spans_ascending(spans@) {
            lemma_ascending_spans_kept(spans@);
        }
    }
    kept
}

/// The changed line ranges between `old` and `new`, as they are reported:
/// the spans of the operations of the diff, as far as they are in order.
pub open spec fn line_spans_of(old: Seq<char>, new: Seq<char>) -> Seq<LineSpan> {
    kept_in_order(spans_of_ops(diff_ops(old, new)))
}

/// The changed line ranges between `old` and `new`: modified ranges count
/// lines of the old text, added ranges lines of the new text. Within each
/// kind the ranges ascend and never overlap: a range that the diff reports
/// out of order is left out.
pub fn collect_line_spans(old: &str, new: &str) -> (spans: Vec<LineSpan>)
    ensures
        spans@ == line_spans_of(old@, new@),
        spans_ascending(spans@),
        spans_ascending(spans_of_ops(diff_ops(old@, new@))) ==> spans@ == spans_of_ops(
            diff_ops(old@, new@),
        ),
{
    let ops = line_ops(old, new);
    let raw = spans_from_ops(&ops);
    ordered_spans(&raw)
}

/// The part of the summary that an operation contributes: `L3` or `L3-L5` for
/// old lines deleted or replaced, `+L4` for an insertion before new line 4;
/// nothing for unchanged lines.
pub open spec fn summary_part(op: DiffOp) -> Option<Seq<char>> {
    match op.tag {
        DiffTag::Equal => None,
        DiffTag::Delete | DiffTag::Replace => if op.old_start + 1 == op.old_end {
            Some(seq!['L'] + decimal((op.old_start + 1) as nat))
        } else {
            Some(
                seq!['L'] + decimal((op.old_start + 1) as nat) + seq!['-', 'L'] + decimal(
                    op.old_end as nat,
                ),
            )
        },
        DiffTag::Insert => Some(seq!['+', 'L'] + decimal((op.new_start + 1) as nat)),
    }
}

/// The parts of `ops`, joined by a comma and a space.
pub open spec fn summary_parts(ops: Seq<DiffOp>) -> Seq<char>
    decreases ops.len(),
{
    if ops.len() == 0 {
        Seq::empty()
    } else {
        let before = summary_parts(ops.drop_last());
        match summary_part(ops.last()) {
            Some(part) => if before.len() == 0 {
                part
            } else {
                before + seq![',', ' '] + part
            },
            None => before,
        }
    }
}

/// The one-line summary of `ops`: its parts, or `no-change` where there are
/// none.
pub open spec fn summary_of(ops: Seq<DiffOp>) -> Seq<char> {
    if summary_parts(ops).len() == 0 {
        "no-change"@
    } else {
        summary_parts(ops)
    }
}

/// The one-line summary of the operations `ops`.
pub fn summarize_ops(ops: &Vec<DiffOp>) -> (r: String)
    ensures
        r@ == summary_of(ops@),
{
    let mut out: Vec<char> = Vec::new();
    let mut i: usize = 0;
    assert(ops@.take(0) =~= Seq::<DiffOp>::empty());
    while i < ops.len()
        invariant
            i <= ops.len(),
            out@ == summary_parts(ops@.take(i as int)),
        decreases ops.len() - i,
    {
        let op = ops[i];
        proof {
            assert(ops@.take(i + 1).drop_last() =~= ops@.take(i as int));
            assert(ops@.take(i + 1).last() == op);
        }
        let ghost before = out@;
        match op.tag {
            DiffTag::Equal => {},
            DiffTag::Delete | DiffTag::Replace => {
                if out.len() > 0 {
                    out.push(',');
                    out.push(' ');
                }
                let ghost head = out@;
                let start: u128 = op.old_start as u128 + 1;
                out.push('L');
                push_decimal(&mut out, start);
                if start != op.old_end as u128 {
                    out.push('-');
                    out.push('L');
                    push_decimal(&mut out, op.old_end as u128);
                }
                proof {
                    let part = summary_part(op)->0;
                    assert(out@ =~= head + part);
                    if before.len() > 0 {
                        assert(head =~= before + seq![',', ' ']);
                    } else {
                        assert(head =~= before);
                        assert(out@ =~= part);
                    }
                }
            },
            DiffTag::Insert => {
                if out.len() > 0 {
                    out.push(',');
                    out.push(' ');
                }
                let ghost head = out@;
                out.push('+');
                out.push('L');
                push_decimal(&mut out, op.new_start as u128 + 1);
                proof {
                    let part = summary_part(op)->0;
                    assert(out@ =~= head + part);
                    if before.len() > 0 {
                        assert(head =~= before + seq![',', ' ']);
                    } else {
                        assert(head =~= before);
                        assert(out@ =~= part);
                    }
                }
            },
        }
        i += 1;
    }
    assert(ops@.take(ops.len() as int) =~= ops@);
    if out.len() == 0 {
        "no-change".to_owned()
    } else {
        string_of(out.as_slice())
    }
}

/// The one-line summary of what changed between `old` and `new`.
pub fn summarize_lines(old: &str, new: &str) -> (r: String)
    ensures
        r@ == summary_of(diff_ops(old@, new@)),
{
    let ops = line_ops(old, new);
    summarize_ops(&ops)
}

/// The unified diff between `old` and `new`, with `context` lines of context
/// and the two labels in its header, as the `similar` crate formats it.
pub uninterp spec fn unified_diff_text(
    old_label: Seq<char>,
    new_label: Seq<char>,
    old: Seq<char>,
    new: Seq<char>,
    context: usize,
) -> Seq<char>;

/// The context radius that a diff is made with: the radius asked for, but no
/// more than half the largest number, which is more lines than a text can
/// have.
pub open spec fn context_radius(context: usize) -> usize {
    if context > usize::MAX / 2 {
        (usize::MAX / 2) as usize
    } else {
        context
    }
}

/// The context radius that a diff is made with.
pub fn clamp_context(context: usize) -> (r: usize)
    ensures
        r == context_radius(context),
        r <= usize::MAX / 2,
{
    if context > usize::MAX / 2 {
        usize::MAX / 2
    } else {
        context
    }
}

/// `similar::TextDiff::from_lines` diffs the two texts, and the formatter that
/// `TextDiff::unified_diff` returns, given the context radius and the header,
/// writes the unified diff. The crate doubles the radius when it groups the
/// operations, so a radius whose double overflows is kept out.
#[verifier::external_body]
fn format_unified(old_label: &str, new_label: &str, old: &str, new: &str, context: usize) -> (r:
    String)
    requires
        context <= usize::MAX / 2,
    ensures
        r@ == unified_diff_text(old_label@, new_label@, old@, new@, context),
{
    similar::TextDiff::from_lines(old, new).unified_diff().context_radius(context).header(
        old_label,
        new_label,
    ).to_string()
}

/// The unified diff that turns `old` into `new`, headed by the two paths,
/// with `context` lines of context, as far as the radius is allowed.
pub fn unified_diff(old_path: &str, new_path: &str, old: &str, new: &str, context: usize) -> (r:
    String)
    ensures
        r@ == unified_diff_text(old_path@, new_path@, old@, new@, context_radius(context)),
{
    format_unified(old_path, new_path, old, new, clamp_context(context))
}

} // verus!

//! The bounded rendering of a diff.
//!
//! A rendered diff never holds more than `DIFF_MAX_LINES` lines, nor a line
//! longer than `DIFF_MAX_LINE_BYTES` bytes, and rendering stops once
//! `DIFF_MAX_BYTES` bytes are reached. A line that is too long is cut and
//! marked; the cap that stopped the rendering is remembered.

use vstd::prelude::*;
use vstd::string::StringExecFns;

use crate::diff::{clamp_context, context_radius};
use crate::lines::texts;
use crate::numbers::{decimal, decimal_chars};
use crate::offsets::{lemma_fitting_fits, 
    byte_len, byte_length, count_fitting, fitting, lemma_byte_len_ascii, lemma_byte_len_concat,
};
use crate::text::{chars_of, string_of};

verus! {

/// The most lines a rendered diff holds.
pub const DIFF_MAX_LINES: usize = 5000;

/// The number of bytes at which rendering stops.
pub const DIFF_MAX_BYTES: usize = 5242880;

/// The most bytes a rendered line holds.
pub const DIFF_MAX_LINE_BYTES: usize = 65536;

/// What is put at the end of a line that was cut.
pub const DIFF_LINE_TRUNCATION_SUFFIX: &'static str = "... (line truncated)\n";

/// The number of lines on one page of the pager.
pub const PAGE_LINES: usize = 200;

/// The cap that stopped a rendering.
#[derive(Debug, Clone, Copy, PartialEq, Eq)]
pub enum TruncateReason {
    LineCount,
    ByteCount,
}

/// The kind of one line of a diff.
#[derive(Debug, Clone, Copy, PartialEq, Eq)]
pub enum ChangeTag {
    Equal,
    Delete,
    Insert,
}

/// One line of a diff: its kind and its text, line break included.
#[derive(Debug, Clone)]
pub struct ChangeLine {
    pub tag: ChangeTag,
    pub text: String,
}

/// A line of a diff as the contracts see it.
pub struct ChangeLineView {
    pub tag: ChangeTag,
    pub text: Seq<char>,
}

impl View for ChangeLine {
    type V = ChangeLineView;

    open spec fn view(&self) -> ChangeLineView {
        ChangeLineView { tag: self.tag, text: self.text@ }
    }
}

/// The views of the groups of lines `groups`.
pub open spec fn group_views(groups: Seq<Vec<ChangeLine>>) -> Seq<Seq<ChangeLineView>> {
    Seq::new(groups.len(), |i: int| Seq::new(groups[i]@.len(), |j: int| groups[i]@[j]@))
}

/// The lines of the diff between `old` and `new`, in groups of changes with
/// `context` unchanged lines around them.
pub uninterp spec fn diff_groups(old: Seq<char>, new: Seq<char>, context: usize) -> Seq<
    Seq<ChangeLineView>,
>;

/// `similar::TextDiff` is configured for the Myers algorithm and diffs the two
/// texts line by line. `TextDiff::grouped_ops` groups the operations with the
/// given context, `TextDiff::iter_changes` expands each operation into its
/// lines, and each line is copied with its tag (`Change::tag`) and its text as
/// `Display` writes it. The crate doubles the context when it groups the
/// operations, so a context whose double overflows is kept out.
#[verifier::external_body]
fn grouped_changes(old: &str, new: &str, context: usize) -> (r: Vec<Vec<ChangeLine>>)
    requires
        context <= usize::MAX / 2,
    ensures
        group_views(r@) == diff_groups(old@, new@, context),
{
    let diff = similar::TextDiff::configure().algorithm(similar::Algorithm::Myers).diff_lines(
        old,
        new,
    );
    diff.grouped_ops(context).iter().map(|group| {
        group.iter().flat_map(|op| diff.iter_changes(op)).map(|change| ChangeLine {
            tag: match change.tag() {
                similar::ChangeTag::Equal => ChangeTag::Equal,
                similar::ChangeTag::Delete => ChangeTag::Delete,
                similar::ChangeTag::Insert => ChangeTag::Insert,
            },
            text: change.to_string(),
        }).collect()
    }).collect()
}

/// The mark at the end of a cut line.
pub open spec fn cut_mark() -> Seq<char> {
    DIFF_LINE_TRUNCATION_SUFFIX@
}

/// The number of bytes left for a cut line before its mark.
pub open spec fn cut_room() -> int {
    DIFF_MAX_LINE_BYTES - 21
}

/// A line cut to fit: as many whole characters as fit in the room before the
/// mark, without a final line feed, and then the mark. A line no longer than
/// the mark becomes the mark alone.
pub open spec fn cut_line(line: Seq<char>) -> Seq<char> {
    if byte_len(line) <= 21 {
        cut_mark()
    } else {
        let kept = line.take(fitting(line, cut_room()) as int);
        if kept.len() > 0 && kept.last() == '\n' {
            kept.drop_last() + cut_mark()
        } else {
            kept + cut_mark()
        }
    }
}

/// The line as it is stored: cut where it is longer than a line may be.
pub open spec fn stored_line(line: Seq<char>) -> Seq<char> {
    if byte_len(line) > DIFF_MAX_LINE_BYTES {
        cut_line(line)
    } else {
        line
    }
}

/// The mark is 21 ASCII characters.
proof fn lemma_cut_mark()
    ensures
        cut_mark().len() == 21,
        byte_len(cut_mark()) == 21,
{
    reveal_strlit("... (line truncated)\n");
    lemma_byte_len_ascii(cut_mark());
}

/// A cut line fits in a line.
proof fn lemma_cut_line_fits(line: Seq<char>)
    ensures
        byte_len(cut_line(line)) <= DIFF_MAX_LINE_BYTES,
{
    lemma_cut_mark();
    if byte_len(line) > 21 {
        let kept = line.take(fitting(line, cut_room()) as int);
        lemma_fitting_fits(line, cut_room());
        lemma_byte_len_concat(kept, cut_mark());
        if kept.len() > 0 && kept.last() == '\n' {
            lemma_byte_len_concat(kept.drop_last(), cut_mark());
        }
    }
}

/// Cuts `line` to fit in a line and marks it as cut.
pub fn truncate_line(line: &mut String)
    ensures
        final(line)@ == cut_line(old(line)@),
        byte_len(final(line)@) <= DIFF_MAX_LINE_BYTES,
{
    proof {
        lemma_cut_mark();
        lemma_cut_line_fits(line@);
    }
    let size = byte_length(line.as_str());
    if size <= 21 {
        *line = DIFF_LINE_TRUNCATION_SUFFIX.to_owned();
        return ;
    }
    let chars = chars_of(line.as_str());
    let fit = count_fitting(chars.as_slice(), DIFF_MAX_LINE_BYTES - 21);
    let mut keep: usize = fit.0;
    if keep > 0 && chars[keep - 1] == '\n' {
        keep = keep - 1;
    }
    let mut out = string_of(vstd::slice::slice_subrange(chars.as_slice(), 0, keep));
    out.append(DIFF_LINE_TRUNCATION_SUFFIX);
    proof {
        let kept = chars@.take(fit.0 as int);
        if kept.len() > 0 && kept.last() == '\n' {
            assert(kept.drop_last() =~= chars@.subrange(0, keep as int));
        } else {
            assert(kept =~= chars@.subrange(0, keep as int));
        }
    }
    *line = out;
}

/// The number of bytes that the lines `lines` take together.
pub open spec fn bytes_of(lines: Seq<Seq<char>>) -> nat
    decreases lines.len(),
{
    if lines.len() == 0 {
        0
    } else {
        bytes_of(lines.drop_last()) + byte_len(lines.last())
    }
}

/// The cap that the lines `lines` have reached, if they have reached one. The
/// number of lines is looked at first.
pub open spec fn cap_reached(lines: Seq<Seq<char>>) -> Option<TruncateReason> {
    if lines.len() >= DIFF_MAX_LINES {
        Some(TruncateReason::LineCount)
    } else if bytes_of(lines) >= DIFF_MAX_BYTES {
        Some(TruncateReason::ByteCount)
    } else {
        None
    }
}

/// A rendering as the contracts see it: its lines, how many of them were
/// cut, and the cap that stopped it, if one did.
pub struct BufferView {
    pub lines: Seq<Seq<char>>,
    pub line_truncations: nat,
    pub stopped: Option<TruncateReason>,
}

/// The rendering `buffer` after `line` is pushed. Once the rendering is
/// stopped nothing is added. A line that would take the rendering past the
/// cap on bytes is not stored: it stops the rendering. Any other line is
/// stored, cut where it is too long, and stops the rendering where a cap is
/// reached with it.
pub open spec fn pushed(buffer: BufferView, line: Seq<char>) -> BufferView {
    if buffer.stopped is Some {
        buffer
    } else if bytes_of(buffer.lines) + byte_len(stored_line(line)) > DIFF_MAX_BYTES {
        BufferView { stopped: Some(TruncateReason::ByteCount), ..buffer }
    } else {
        BufferView {
            lines: buffer.lines.push(stored_line(line)),
            line_truncations: if byte_len(line) > DIFF_MAX_LINE_BYTES {
                buffer.line_truncations + 1
            } else {
                buffer.line_truncations
            },
            stopped: cap_reached(buffer.lines.push(stored_line(line))),
        }
    }
}

/// The rendering that holds `items`, pushed in order.
pub open spec fn filled(items: Seq<Seq<char>>) -> BufferView
    decreases items.len(),
{
    if items.len() == 0 {
        BufferView { lines: Seq::empty(), line_truncations: 0, stopped: None }
    } else {
        pushed(filled(items.drop_last()), items.last())
    }
}

/// The colour escape of a line of a diff: red for a deletion, green for an
/// insertion, none for an unchanged line.
pub open spec fn style_of_tag(tag: ChangeTag) -> Seq<char> {
    match tag {
        ChangeTag::Delete => "\x1b[31m"@,
        ChangeTag::Insert => "\x1b[32m"@,
        ChangeTag::Equal => Seq::empty(),
    }
}

/// The sign of a line of a diff.
pub open spec fn symbol_of_tag(tag: ChangeTag) -> char {
    match tag {
        ChangeTag::Delete => '-',
        ChangeTag::Insert => '+',
        ChangeTag::Equal => ' ',
    }
}

/// A line of a diff as it is rendered: sign, space and text, wrapped in its
/// colour where colours are on and the line has one.
pub open spec fn rendered_change(change: ChangeLineView, colorize: bool) -> Seq<char> {
    let plain = seq![symbol_of_tag(change.tag), ' '] + change.text;
    if colorize && change.tag != ChangeTag::Equal {
        style_of_tag(change.tag) + plain + "\x1b[0m"@
    } else {
        plain
    }
}

/// The lines of one group, rendered.
pub open spec fn rendered_group(group: Seq<ChangeLineView>, colorize: bool) -> Seq<Seq<char>> {
    Seq::new(group.len(), |i: int| rendered_change(group[i], colorize))
}

/// Everything that is pushed for the groups `groups`: the lines of each
/// group, and an elision mark before every group but the first.
pub open spec fn diff_items(groups: Seq<Seq<ChangeLineView>>, colorize: bool) -> Seq<Seq<char>>
    decreases groups.len(),
{
    if groups.len() == 0 {
        Seq::empty()
    } else if groups.len() == 1 {
        rendered_group(groups.last(), colorize)
    } else {
        diff_items(groups.drop_last(), colorize).push("...\n"@) + rendered_group(
            groups.last(),
            colorize,
        )
    }
}

/// A rendered diff.
pub struct DiffBuffer {
    lines: Vec<String>,
    total_bytes: usize,
    truncated: bool,
    truncate_reason: Option<TruncateReason>,
    line_truncations: usize,
}

impl View for DiffBuffer {
    type V = BufferView;

    closed spec fn view(&self) -> BufferView {
        BufferView {
            lines: texts(self.lines@),
            line_truncations: self.line_truncations as nat,
            stopped: self.truncate_reason,
        }
    }
}

/// No line of `lines` is longer than a line may be.
pub open spec fn lines_fit(lines: Seq<Seq<char>>) -> bool {
    forall|i: int| 0 <= i < lines.len() ==> byte_len(#[trigger] lines[i]) <= DIFF_MAX_LINE_BYTES
}

impl DiffBuffer {
    #[verifier::type_invariant]
    spec fn consistent(self) -> bool {
        &&& self.lines@.len() <= DIFF_MAX_LINES
        &&& lines_fit(texts(self.lines@))
        &&& self.total_bytes == bytes_of(texts(self.lines@))
        &&& self.total_bytes <= DIFF_MAX_BYTES
        &&& cap_reached(texts(self.lines@)) is Some ==> self.truncate_reason is Some
        &&& self.truncated == (self.truncate_reason is Some)
        &&& self.line_truncations <= self.lines@.len()
    }

    /// An empty rendering.
    pub fn new() -> (r: Self)
        ensures
            r@ == filled(Seq::empty()),
    {
        let lines: Vec<String> = Vec::new();
        assert(texts(lines@) =~= Seq::<Seq<char>>::empty());
        DiffBuffer {
            lines,
            total_bytes: 0,
            truncated: false,
            truncate_reason: None,
            line_truncations: 0,
        }
    }

    /// Adds `line`, cut where it is too long, unless the rendering is stopped
    /// or the line would take it past the cap on bytes. Tells whether more
    /// lines may follow: whether the rendering is not stopped after this line.
    pub fn push_line(&mut self, line: String) -> (more: bool)
        ensures
            final(self)@ == pushed(old(self)@, line@),
            more == (final(self)@.stopped is None),
            final(self)@.lines.len() <= DIFF_MAX_LINES,
            lines_fit(final(self)@.lines),
            bytes_of(final(self)@.lines) <= DIFF_MAX_BYTES,
    {
        proof {
            use_type_invariant(&*self);
            lemma_cut_line_fits(line@);
        }
        if self.truncated {
            return false;
        }
        let mut line = line;
        let exceeded = byte_length(line.as_str()) > DIFF_MAX_LINE_BYTES;
        let mut cuts = self.line_truncations;
        if exceeded {
            truncate_line(&mut line);
            cuts = cuts + 1;
        }
        let size = byte_length(line.as_str());
        let ghost before = texts(self.lines@);
        let mut taken = DiffBuffer::new();
        std::mem::swap(self, &mut taken);
        let mut lines = taken.lines;
        let total_before = taken.total_bytes;
        if total_before + size > DIFF_MAX_BYTES {
            *self = DiffBuffer {
                lines,
                total_bytes: total_before,
                truncated: true,
                truncate_reason: Some(TruncateReason::ByteCount),
                line_truncations: taken.line_truncations,
            };
            return false;
        }
        lines.push(line);
        proof {
            assert(texts(lines@) =~= before.push(line@));
            assert(texts(lines@).drop_last() =~= before);
            assert forall|i: int| 0 <= i < texts(lines@).len() implies byte_len(
                #[trigger] texts(lines@)[i],
            ) <= DIFF_MAX_LINE_BYTES by {
                if i < before.len() {
                    assert(texts(lines@)[i] == before[i]);
                }
            }
        }
        let total = total_before + size;
        let reason: Option<TruncateReason> = if lines.len() >= DIFF_MAX_LINES {
            Some(TruncateReason::LineCount)
        } else if total >= DIFF_MAX_BYTES {
            Some(TruncateReason::ByteCount)
        } else {
            None
        };
        let more = reason.is_none();
        *self = DiffBuffer {
            lines,
            total_bytes: total,
            truncated: !more,
            truncate_reason: reason,
            line_truncations: cuts,
        };
        more
    }

    /// The number of lines.
    pub fn line_count(&self) -> (n: usize)
        ensures
            n == self@.lines.len(),
            n <= DIFF_MAX_LINES,
    {
        proof {
            use_type_invariant(self);
        }
        self.lines.len()
    }

    /// The line with index `i`.
    pub fn line(&self, i: usize) -> (r: &str)
        requires
            i < self@.lines.len(),
        ensures
            r@ == self@.lines[i as int],
    {
        self.lines[i].as_str()
    }

    /// The cap that stopped the rendering, if one did.
    pub fn truncate_reason(&self) -> (r: Option<TruncateReason>)
        ensures
            r == self@.stopped,
    {
        self.truncate_reason
    }

    /// The number of bytes that the lines take together: never more than the
    /// cap on bytes.
    pub fn total_bytes(&self) -> (n: usize)
        ensures
            n == bytes_of(self@.lines),
            n <= DIFF_MAX_BYTES,
    {
        proof {
            use_type_invariant(self);
        }
        self.total_bytes
    }

    /// How many lines were cut.
    pub fn line_truncations(&self) -> (n: usize)
        ensures
            n == self@.line_truncations,
    {
        self.line_truncations
    }

    /// Renders the groups of lines `groups`, with an elision mark between
    /// groups, until a cap is reached.
    pub fn build_from(groups: &Vec<Vec<ChangeLine>>, colorize: bool) -> (r: Self)
        ensures
            r@ == filled(diff_items(group_views(groups@), colorize)),
            r@.lines.len() <= DIFF_MAX_LINES,
            lines_fit(r@.lines),
            bytes_of(r@.lines) <= DIFF_MAX_BYTES,
    {
        let mut buffer = DiffBuffer::new();
        let ghost gs = group_views(groups@);
        let mut g: usize = 0;
        assert(gs.take(0) =~= Seq::<Seq<ChangeLineView>>::empty());
        proof {
            use_type_invariant(&buffer);
        }
        while g < groups.len()
            invariant
                g <= groups.len(),
                gs == group_views(groups@),
                buffer@ == filled(diff_items(gs.take(g as int), colorize)),
                buffer@.lines.len() <= DIFF_MAX_LINES,
                lines_fit(buffer@.lines),
                bytes_of(buffer@.lines) <= DIFF_MAX_BYTES,
            decreases groups.len() - g,
        {
            let ghost done = diff_items(gs.take(g as int), colorize);
            let ghost group = gs[g as int];
            proof {
                assert(gs.take(g + 1).drop_last() =~= gs.take(g as int));
                assert(gs.take(g + 1).last() == group);
            }
            if g > 0 {
                buffer.push_line("...\n".to_owned());
            }
            let ghost head = if g > 0 {
                done.push("...\n"@)
            } else {
                done
            };
            proof {
                if g > 0 {
                    assert(head.drop_last() =~= done);
                }
                assert(rendered_group(group, colorize).take(0) =~= Seq::<Seq<char>>::empty());
                assert(head + rendered_group(group, colorize).take(0) =~= head);
            }
            let lines = &groups[g];
            let mut k: usize = 0;
            while k < lines.len()
                invariant
                    k <= lines.len(),
                    g < groups.len(),
                    lines == &groups@[g as int],
                    gs == group_views(groups@),
                    group == gs[g as int],
                    buffer@ == filled(head + rendered_group(group, colorize).take(k as int)),
                    buffer@.lines.len() <= DIFF_MAX_LINES,
                    lines_fit(buffer@.lines),
                    bytes_of(buffer@.lines) <= DIFF_MAX_BYTES,
                decreases lines.len() - k,
            {
                let change = &lines[k];
                let text = render_change(change, colorize);
                proof {
                    let row = rendered_group(group, colorize);
                    assert(group[k as int] == change@);
                    assert(row[k as int] == text@);
                    assert((head + row.take(k + 1)).drop_last() =~= head + row.take(k as int));
                    assert((head + row.take(k + 1)).last() == text@);
                }
                buffer.push_line(text);
                k += 1;
            }
            proof {
                let row = rendered_group(group, colorize);
                assert(row.take(lines.len() as int) =~= row);
                if g == 0 {
                    assert(gs.take(1).len() == 1);
                    assert(head + row =~= diff_items(gs.take(g + 1), colorize));
                } else {
                    assert(gs.take(g + 1).len() > 1);
                    assert(head + row =~= diff_items(gs.take(g + 1), colorize));
                }
            }
            g += 1;
        }
        assert(gs.take(groups.len() as int) =~= gs);
        buffer
    }

    /// Renders the diff between `old` and `new` with `context` unchanged
    /// lines around each change, as far as the radius is allowed.
    pub fn build(old: &str, new: &str, context: usize, colorize: bool) -> (r: Self)
        ensures
            r@ == filled(
                diff_items(diff_groups(old@, new@, context_radius(context)), colorize),
            ),
            r@.lines.len() <= DIFF_MAX_LINES,
            lines_fit(r@.lines),
            bytes_of(r@.lines) <= DIFF_MAX_BYTES,
    {
        let groups = grouped_changes(old, new, clamp_context(context));
        DiffBuffer::build_from(&groups, colorize)
    }

    /// The notes to show under the diff: which cap stopped the rendering, and
    /// how many lines were cut.
    pub fn warnings(&self) -> (notes: Vec<String>)
        ensures
            texts(notes@) == warnings_for(self@.stopped, self@.line_truncations),
    {
        proof {
            use_type_invariant(self);
        }
        let mut notes: Vec<String> = Vec::new();
        assert(texts(notes@) =~= Seq::<Seq<char>>::empty());
        match self.truncate_reason {
            Some(TruncateReason::LineCount) => {
                notes.push(
                    "(diff truncated at ~5000 lines; rerun with --pager never and narrower targets to view everything)".to_owned(),
                );
            },
            Some(TruncateReason::ByteCount) => {
                notes.push(
                    "(diff truncated after ~5242880 bytes; rerun with --pager never and narrower targets to view everything)".to_owned(),
                );
            },
            None => {},
        }
        let ghost first = texts(notes@);
        if self.line_truncations > 0 {
            let mut note = "(note: ".to_owned();
            note.append(string_of(decimal_chars(self.line_truncations as u128).as_slice()).as_str());
            note.append(
                " diff line(s) exceeded 65536 bytes and were truncated; rerun with --pager never to inspect the full line)",
            );
            notes.push(note);
            assert(texts(notes@) =~= first.push(cut_note(self.line_truncations as nat)));
        }
        assert(texts(notes@) =~= warnings_for(self@.stopped, self@.line_truncations));
        notes
    }
}

/// The note on cut lines.
pub open spec fn cut_note(cuts: nat) -> Seq<char> {
    "(note: "@ + decimal(cuts)
        + " diff line(s) exceeded 65536 bytes and were truncated; rerun with --pager never to inspect the full line)"@
}

/// The notes under a diff: one for the cap that was reached, one for the lines
/// that were cut.
pub open spec fn warnings_for(reason: Option<TruncateReason>, cuts: nat) -> Seq<Seq<char>> {
    let first: Seq<Seq<char>> = match reason {
        Some(TruncateReason::LineCount) => seq![
            "(diff truncated at ~5000 lines; rerun with --pager never and narrower targets to view everything)"@,
        ],
        Some(TruncateReason::ByteCount) => seq![
            "(diff truncated after ~5242880 bytes; rerun with --pager never and narrower targets to view everything)"@,
        ],
        None => Seq::empty(),
    };
    if cuts > 0 {
        first.push(cut_note(cuts))
    } else {
        first
    }
}

fn render_change(change: &ChangeLine, colorize: bool) -> (r: String)
    ensures
        r@ == rendered_change(change@, colorize),
{
    let mut out = String::new();
    let styled = colorize && match change.tag {
        ChangeTag::Equal => false,
        _ => true,
    };
    if styled {
        match change.tag {
            ChangeTag::Delete => out.append("\x1b[31m"),
            ChangeTag::Insert => out.append("\x1b[32m"),
            ChangeTag::Equal => {},
        }
    }
    let ghost head = out@;
    let symbol = match change.tag {
        ChangeTag::Delete => '-',
        ChangeTag::Insert => '+',
        ChangeTag::Equal => ' ',
    };
    out.push(symbol);
    out.push(' ');
    out.append(change.text.as_str());
    assert(out@ =~= head + (seq![symbol_of_tag(change.tag), ' '] + change.text@));
    if styled {
        out.append("\x1b[0m");
    }
    out
}

} // verus!

//! Replacing the region between two markers.
//!
//! The region is the text strictly between the first start marker and the
//! first end marker after it. The new body is fitted to the region it
//! replaces: it takes over the document's line endings, the region's leading
//! and trailing line breaks, the indentation of the start marker's line, and
//! the indentation that stood before the end marker.

use vstd::prelude::*;
use crate::chars::{all_in, all_of, count_leading, leading, CharClass};
use crate::commands::{BlockMode, BlockOptions, TransformError};
use crate::encoding::DecodedText;
use crate::lineending::{
    lemma_lf_as_lf, replace_lf, replace_line_breaks, with_lf_as, with_line_breaks,
};
use crate::lines::{chunks, rows, split_chunks};
use crate::text::{
    chars_of, contains, contains_seq, copy_range, crlf, crlf_chars, ends_with, find_from,
    first_occurrence, has_suffix, lf, lf_chars, no_occurrence, push_all, same_chars, string_of,
};

verus! {

/// The line ending that a rewritten block uses: CRLF if the block or the
/// document holds a CRLF pair, else LF.
pub open spec fn preferred_newline(block: Seq<char>, doc: Seq<char>) -> Seq<char> {
    if contains_seq(block, crlf()) || contains_seq(doc, crlf()) {
        crlf()
    } else {
        lf()
    }
}

/// `s` begins with a line break (LF or CRLF).
pub open spec fn leading_linebreak(s: Seq<char>) -> bool {
    (s.len() >= 1 && s[0] == '\n') || (s.len() >= 2 && s[0] == '\r' && s[1] == '\n')
}

/// `s` ends with a line break (LF or CRLF).
pub open spec fn trailing_linebreak(s: Seq<char>) -> bool {
    s.len() >= 1 && s.last() == '\n'
}

/// A line is indented when there is an indentation to give and the line is
/// neither empty nor already starts with a space or a tab.
pub open spec fn wants_indent(line: Seq<char>, indent: Seq<char>) -> bool {
    indent.len() > 0 && line.len() > 0 && line[0] != ' ' && line[0] != '\t'
}

/// The index at which the line that holds position `pos` starts: just after
/// the last line feed before `pos`, or zero.
pub open spec fn line_start(text: Seq<char>, pos: int) -> int
    decreases pos,
{
    if pos <= 0 {
        0
    } else if text[pos - 1] == '\n' {
        pos
    } else {
        line_start(text, pos - 1)
    }
}

/// The indentation of the line that holds position `marker_start`: the spaces
/// and tabs with which the line begins, as far as they stand before the
/// position.
pub open spec fn indent_before(text: Seq<char>, marker_start: int) -> Seq<char> {
    let head = text.subrange(line_start(text, marker_start), marker_start);
    head.take(leading(head, CharClass::Blank) as int)
}

/// The indentation that stands between the last line feed of `existing` and
/// its end: the whole of what follows that line feed if it is made of spaces
/// and tabs only, else nothing.
pub open spec fn trailing_indent(existing: Seq<char>) -> Seq<char> {
    let start = line_start(existing, existing.len() as int);
    let tail = existing.skip(start);
    if start > 0 && tail.len() > 0 && all_in(tail, CharClass::Blank) {
        tail
    } else {
        Seq::empty()
    }
}

/// The requested body with LF line breaks, given a leading and a trailing
/// line break where the existing region has one and the body lacks it.
pub open spec fn shaped_body(existing: Seq<char>, requested: Seq<char>) -> Seq<char> {
    let body = with_line_breaks(requested, lf());
    let headed = if leading_linebreak(existing) && !(body.len() > 0 && body[0] == '\n') {
        lf() + body
    } else {
        body
    };
    if trailing_linebreak(existing) && !(headed.len() > 0 && headed.last() == '\n') {
        headed.push('\n')
    } else {
        headed
    }
}

/// A chunk of the body without its closing line feed.
pub open spec fn chunk_line(chunk: Seq<char>) -> Seq<char> {
    if chunk.len() > 0 && chunk.last() == '\n' {
        chunk.drop_last()
    } else {
        chunk
    }
}

/// A chunk of the body with the indentation put before it where its line
/// wants one.
pub open spec fn indented_chunk(chunk: Seq<char>, indent: Seq<char>) -> Seq<char> {
    if wants_indent(chunk_line(chunk), indent) {
        indent + chunk
    } else {
        chunk
    }
}

/// The chunks `cs`, each indented where it wants to be, joined.
pub open spec fn indented(cs: Seq<Seq<char>>, indent: Seq<char>) -> Seq<char>
    decreases cs.len(),
{
    if cs.len() == 0 {
        Seq::empty()
    } else {
        indented(cs.drop_last(), indent) + indented_chunk(cs.last(), indent)
    }
}

/// `rebuilt` made to end with a line feed followed by `trailing`, where
/// `trailing` is not empty.
pub open spec fn closed_with(rebuilt: Seq<char>, trailing: Seq<char>) -> Seq<char> {
    if trailing.len() == 0 || has_suffix(rebuilt, lf() + trailing) {
        rebuilt
    } else if rebuilt.len() > 0 && rebuilt.last() == '\n' {
        rebuilt + trailing
    } else {
        rebuilt.push('\n') + trailing
    }
}

/// The region that is to stand between the markers.
pub open spec fn desired_region(
    existing: Seq<char>,
    requested: Seq<char>,
    full_text: Seq<char>,
    indent: Seq<char>,
) -> Seq<char> {
    with_lf_as(
        closed_with(
            indented(chunks(shaped_body(existing, requested)), indent),
            trailing_indent(existing),
        ),
        preferred_newline(existing, full_text),
    )
}

/// The line ending that a rewritten block uses.
pub fn preferred_line_ending(block: &str, doc: &str) -> (r: &'static str)
    ensures
        r@ == preferred_newline(block@, doc@),
{
    let block_chars = chars_of(block);
    let doc_chars = chars_of(doc);
    let pair = crlf_chars();
    proof {
        reveal_strlit("\r\n");
        reveal_strlit("\n");
        assert("\r\n"@ =~= crlf());
        assert("\n"@ =~= lf());
    }
    if contains(block_chars.as_slice(), pair.as_slice()) || contains(
        doc_chars.as_slice(),
        pair.as_slice(),
    ) {
        "\r\n"
    } else {
        "\n"
    }
}

fn starts_with_linebreak(s: &[char]) -> (r: bool)
    ensures
        r == leading_linebreak(s@),
{
    (s.len() >= 1 && s[0] == '\n') || (s.len() >= 2 && s[0] == '\r' && s[1] == '\n')
}

fn ends_with_linebreak(s: &[char]) -> (r: bool)
    ensures
        r == trailing_linebreak(s@),
{
    s.len() >= 1 && s[s.len() - 1] == '\n'
}

/// Whether `text` begins with a line break.
pub fn has_leading_linebreak(text: &str) -> (r: bool)
    ensures
        r == leading_linebreak(text@),
{
    let chars = chars_of(text);
    starts_with_linebreak(chars.as_slice())
}

/// Whether `text` ends with a line break.
pub fn has_trailing_linebreak(text: &str) -> (r: bool)
    ensures
        r == trailing_linebreak(text@),
{
    let chars = chars_of(text);
    ends_with_linebreak(chars.as_slice())
}

/// `input` with every line break (CRLF, CR or LF) replaced by `newline`.
pub fn normalize_line_endings_to(input: &str, newline: &str) -> (out: String)
    ensures
        out@ == with_line_breaks(input@, newline@),
{
    let chars = chars_of(input);
    let nl = chars_of(newline);
    string_of(replace_line_breaks(chars.as_slice(), nl.as_slice()).as_slice())
}

/// `text` with every LF replaced by `newline`.
pub fn restore_line_endings(text: &str, newline: &str) -> (out: String)
    ensures
        out@ == with_lf_as(text@, newline@),
{
    let chars = chars_of(text);
    let nl = chars_of(newline);
    string_of(replace_lf(chars.as_slice(), nl.as_slice()).as_slice())
}

fn line_wants_indent(line: &[char], indent: &[char]) -> (r: bool)
    ensures
        r == wants_indent(line@, indent@),
{
    indent.len() > 0 && line.len() > 0 && line[0] != ' ' && line[0] != '\t'
}

/// Whether `line` is to be given the indentation `indent`.
pub fn needs_indent(line: &str, indent: &str) -> (r: bool)
    ensures
        r == wants_indent(line@, indent@),
{
    let line_chars = chars_of(line);
    let indent_chars = chars_of(indent);
    line_wants_indent(line_chars.as_slice(), indent_chars.as_slice())
}

fn find_line_start(text: &[char], pos: usize) -> (r: usize)
    requires
        pos <= text.len(),
    ensures
        r == line_start(text@, pos as int),
        r <= pos,
{
    let mut k: usize = pos;
    while k > 0 && text[k - 1] != '\n'
        invariant
            k <= pos <= text.len(),
            line_start(text@, pos as int) == line_start(text@, k as int),
        decreases k,
    {
        k -= 1;
    }
    k
}

fn indent_chars_before(text: &[char], marker_start: usize) -> (out: Vec<char>)
    requires
        marker_start <= text.len(),
    ensures
        out@ == indent_before(text@, marker_start as int),
{
    let start = find_line_start(text, marker_start);
    let head = vstd::slice::slice_subrange(text, start, marker_start);
    let n = count_leading(head, CharClass::Blank);
    copy_range(head, 0, n)
}

/// The indentation of the line on which the marker at character index
/// `marker_start` stands.
pub fn block_indent(text: &str, marker_start: usize) -> (out: String)
    requires
        marker_start <= text@.len(),
    ensures
        out@ == indent_before(text@, marker_start as int),
{
    let chars = chars_of(text);
    string_of(indent_chars_before(chars.as_slice(), marker_start).as_slice())
}

fn trailing_indent_chars(existing: &[char]) -> (out: Vec<char>)
    ensures
        out@ == trailing_indent(existing@),
{
    let start = find_line_start(existing, existing.len());
    let tail = vstd::slice::slice_subrange(existing, start, existing.len());
    assert(tail@ == existing@.skip(start as int));
    if start > 0 && tail.len() > 0 && all_of(tail, CharClass::Blank) {
        copy_range(existing, start, existing.len())
    } else {
        Vec::new()
    }
}

/// The indentation that stands just before the end of `existing`, after its
/// last line feed.
pub fn extract_trailing_indent(existing: &str) -> (out: String)
    ensures
        out@ == trailing_indent(existing@),
{
    let chars = chars_of(existing);
    string_of(trailing_indent_chars(chars.as_slice()).as_slice())
}

fn shape_body(existing: &[char], requested: &[char]) -> (out: Vec<char>)
    ensures
        out@ == shaped_body(existing@, requested@),
{
    let newline = lf_chars();
    let body = replace_line_breaks(requested, newline.as_slice());
    let mut out: Vec<char> = Vec::new();
    if starts_with_linebreak(existing) && !(body.len() > 0 && body[0] == '\n') {
        out.push('\n');
    }
    let ghost head = out@;
    push_all(&mut out, body.as_slice());
    proof {
        if head.len() > 0 {
            assert(head =~= lf());
        } else {
            assert(out@ =~= body@);
        }
    }
    if ends_with_linebreak(existing) && !(out.len() > 0 && out[out.len() - 1] == '\n') {
        out.push('\n');
    }
    out
}

fn indent_body(body: &[char], indent: &[char]) -> (out: Vec<char>)
    ensures
        out@ == indented(chunks(body@), indent@),
{
    let pieces = split_chunks(body);
    let mut out: Vec<char> = Vec::new();
    let mut i: usize = 0;
    let ghost cs = chunks(body@);
    assert(cs.take(0) =~= Seq::<Seq<char>>::empty());
    while i < pieces.len()
        invariant
            i <= pieces.len(),
            rows(pieces@) == cs,
            out@ == indented(cs.take(i as int), indent@),
        decreases pieces.len() - i,
    {
        let piece = pieces[i].as_slice();
        proof {
            assert(rows(pieces@)[i as int] == pieces@[i as int]@);
            assert(cs.take(i + 1).drop_last() =~= cs.take(i as int));
            assert(cs.take(i + 1).last() == piece@);
        }
        let line_len: usize = if piece.len() > 0 && piece[piece.len() - 1] == '\n' {
            piece.len() - 1
        } else {
            piece.len()
        };
        let line = vstd::slice::slice_subrange(piece, 0, line_len);
        proof {
            assert(line@ =~= chunk_line(piece@));
        }
        if line_wants_indent(line, indent) {
            push_all(&mut out, indent);
        }
        push_all(&mut out, piece);
        assert(out@ =~= indented(cs.take(i as int), indent@) + indented_chunk(piece@, indent@));
        i += 1;
    }
    assert(rows(pieces@).len() == pieces.len());
    assert(cs.take(pieces.len() as int) =~= cs);
    out
}

fn close_with(rebuilt: Vec<char>, trailing: &[char]) -> (out: Vec<char>)
    ensures
        out@ == closed_with(rebuilt@, trailing@),
{
    if trailing.len() == 0 {
        return rebuilt;
    }
    let mut needle = lf_chars();
    push_all(&mut needle, trailing);
    if ends_with(rebuilt.as_slice(), needle.as_slice()) {
        return rebuilt;
    }
    let mut out = rebuilt;
    if !(out.len() > 0 && out[out.len() - 1] == '\n') {
        out.push('\n');
    }
    push_all(&mut out, trailing);
    out
}

fn adjust_block_chars(existing: &[char], requested: &[char], full_text: &[char], indent: &[char])
    -> (out: Vec<char>)
    ensures
        out@ == desired_region(existing@, requested@, full_text@, indent@),
{
    let pair = crlf_chars();
    let use_crlf = contains(existing, pair.as_slice()) || contains(full_text, pair.as_slice());
    let body = shape_body(existing, requested);
    let rebuilt = indent_body(body.as_slice(), indent);
    let trailing = trailing_indent_chars(existing);
    let closed = close_with(rebuilt, trailing.as_slice());
    if use_crlf {
        replace_lf(closed.as_slice(), pair.as_slice())
    } else {
        proof {
            lemma_lf_as_lf(closed@);
            assert(lf() =~= seq!['\n']);
        }
        closed
    }
}

/// The region that is to stand between the markers: the requested body
/// fitted to the existing region, to the document and to the indentation of
/// the start marker's line.
pub fn adjust_block_body(existing: &str, requested: &str, full_text: &str, indent: &str) -> (out:
    String)
    ensures
        out@ == desired_region(existing@, requested@, full_text@, indent@),
{
    let existing_chars = chars_of(existing);
    let requested_chars = chars_of(requested);
    let text_chars = chars_of(full_text);
    let indent_chars = chars_of(indent);
    string_of(
        adjust_block_chars(
            existing_chars.as_slice(),
            requested_chars.as_slice(),
            text_chars.as_slice(),
            indent_chars.as_slice(),
        ).as_slice(),
    )
}

/// Where the region of a block lies in `text`: the character index of the
/// start marker, and the indices at which the region begins and ends.
pub struct Region {
    pub marker_start: int,
    pub begin: int,
    pub end: int,
}

/// `region` is the region of the block in `text`: its start marker is the
/// first occurrence of `start_marker`, and it ends at the first occurrence of
/// `end_marker` after that marker.
pub open spec fn is_region(
    text: Seq<char>,
    start_marker: Seq<char>,
    end_marker: Seq<char>,
    region: Region,
) -> bool {
    &&& first_occurrence(text, start_marker, 0, region.marker_start)
    &&& region.begin == region.marker_start + start_marker.len()
    &&& first_occurrence(text, end_marker, region.begin, region.end)
}

/// What `apply_block` owes when the region of the block is `region`.
pub open spec fn block_contract(
    text: Seq<char>,
    options: BlockOptions,
    region: Region,
    r: Result<Option<String>, TransformError>,
) -> bool {
    let existing = text.subrange(region.begin, region.end);
    let desired = desired_region(
        existing,
        options.body@,
        text,
        indent_before(text, region.marker_start),
    );
    if options.mode == BlockMode::Insert && !all_in(existing, CharClass::Whitespace) {
        r matches Err(TransformError::RegionNotEmpty)
    } else {
        match r {
            Ok(Some(new_text)) => desired != existing && new_text@ == text.take(region.begin)
                + desired + text.skip(region.end),
            Ok(None) => desired == existing,
            Err(_) => false,
        }
    }
}

/// A block replacement gives no new text exactly when the region that is to
/// stand between the markers is textually the region that stands there
/// already. This holds wherever the replacement is not refused: in replace
/// mode, and in insert mode on a blank region.
pub proof fn lemma_no_change_iff_region_identical(
    text: Seq<char>,
    options: BlockOptions,
    region: Region,
    r: Result<Option<String>, TransformError>,
)
    requires
        options.mode == BlockMode::Replace || all_in(
            text.subrange(region.begin, region.end),
            CharClass::Whitespace,
        ),
        is_region(text, options.start_marker@, options.end_marker@, region),
        apply_block_contract(text, options, r),
    ensures
        r is Ok,
        (r matches Ok(None)) <==> desired_region(
            text.subrange(region.begin, region.end),
            options.body@,
            text,
            indent_before(text, region.marker_start),
        ) == text.subrange(region.begin, region.end),
{
    assert(block_contract(text, options, region, r));
}

/// What `apply_block` owes: the error of a missing marker, and where both
/// markers are found what `block_contract` says of the region between them.
pub open spec fn apply_block_contract(
    text: Seq<char>,
    options: BlockOptions,
    r: Result<Option<String>, TransformError>,
) -> bool {
    &&& no_occurrence(text, options.start_marker@, 0) ==> (r matches Err(
        TransformError::StartMarkerNotFound(marker),
    ) && marker@ == options.start_marker@)
    &&& forall|at: int|
        first_occurrence(text, options.start_marker@, 0, at) && no_occurrence(
            text,
            options.end_marker@,
            at + options.start_marker@.len(),
        ) ==> (r matches Err(TransformError::EndMarkerNotFound(marker)) && marker@
            == options.end_marker@)
    &&& forall|region: Region|
        is_region(text, options.start_marker@, options.end_marker@, region) ==> block_contract(
            text,
            options,
            region,
            r,
        )
}

/// Rewrites the region between the markers of `options` in the decoded text.
/// A missing marker is an error, and so is a region that is not blank in
/// insert mode. There is no new text exactly when the region that is to stand
/// between the markers is the one that stands there already.
pub fn apply_block(decoded: &DecodedText, options: &BlockOptions) -> (r: Result<
    Option<String>,
    TransformError,
>)
    ensures
        apply_block_contract(decoded.text@, *options, r),
{
    let text = chars_of(decoded.text.as_str());
    let start_marker = chars_of(options.start_marker.as_str());
    let end_marker = chars_of(options.end_marker.as_str());
    let body = chars_of(options.body.as_str());
    let start_pos = match find_from(text.as_slice(), start_marker.as_slice(), 0) {
        Some(at) => at,
        None => {
            return Err(TransformError::StartMarkerNotFound(options.start_marker.clone()));
        },
    };
    let total: usize = text.len();
    assert(start_pos + start_marker@.len() <= total);
    let after_start: usize = start_pos + start_marker.len();
    let end_pos = match find_from(text.as_slice(), end_marker.as_slice(), after_start) {
        Some(at) => at,
        None => {
            return Err(TransformError::EndMarkerNotFound(options.end_marker.clone()));
        },
    };
    let ghost found = Region {
        marker_start: start_pos as int,
        begin: after_start as int,
        end: end_pos as int,
    };
    assert forall|region: Region|
        is_region(
            decoded.text@,
            options.start_marker@,
            options.end_marker@,
            region,
        ) implies region == found by {}
    let existing = vstd::slice::slice_subrange(text.as_slice(), after_start, end_pos);
    let insert_only = match options.mode {
        BlockMode::Insert => true,
        BlockMode::Replace => false,
    };
    if insert_only && !all_of(existing, CharClass::Whitespace) {
        return Err(TransformError::RegionNotEmpty);
    }
    let indent = indent_chars_before(text.as_slice(), start_pos);
    let desired = adjust_block_chars(existing, body.as_slice(), text.as_slice(), indent.as_slice());
    if same_chars(existing, desired.as_slice()) {
        return Ok(None);
    }
    let mut new_text = copy_range(text.as_slice(), 0, after_start);
    push_all(&mut new_text, desired.as_slice());
    let tail = copy_range(text.as_slice(), end_pos, text.len());
    push_all(&mut new_text, tail.as_slice());
    Ok(Some(string_of(new_text.as_slice())))
}

} // verus!

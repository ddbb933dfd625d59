//! Text hygiene: finding and removing zero-width characters, control
//! characters and trailing white space, and ensuring a final newline.

use vstd::prelude::*;
use crate::chars::{
    count_trailing, is_control, is_control_code, trailing, without_trailing, CharClass,
};
use crate::lines::{chunks, rows, split_chunks};
use crate::text::{chars_of, push_all, same_chars, string_of};

verus! {

/// What a scan found. A finding that was not asked for is `None`.
#[derive(Debug, Clone)]
pub struct NormalizeReport {
    pub zero_width: Option<usize>,
    pub control_chars: Option<usize>,
    pub trailing_spaces: Option<usize>,
    pub missing_final_newline: Option<bool>,
}

/// What to remove and what to look for.
#[derive(Debug, Clone)]
pub struct NormalizeOptions {
    pub strip_zero_width: bool,
    pub strip_control: bool,
    pub trim_trailing_space: bool,
    pub ensure_eol: bool,
    pub detect_zero_width: bool,
    pub detect_control: bool,
    pub detect_trailing_space: bool,
    pub detect_final_newline: bool,
}

/// The report of a scan, and the cleaned text where cleaning changed the
/// text.
#[derive(Debug, Clone)]
pub struct NormalizeOutcome {
    pub report: NormalizeReport,
    pub cleaned: Option<String>,
}

/// The zero-width characters: zero width space, non-joiner and joiner, and the
/// byte-order mark.
pub open spec fn zero_width(c: char) -> bool {
    c == '\u{200B}' || c == '\u{200C}' || c == '\u{200D}' || c == '\u{FEFF}'
}

/// The control characters that are reported: every control code but line
/// feed, tab and carriage return.
pub open spec fn unwanted_control(c: char) -> bool {
    is_control_code(c) && c != '\n' && c != '\t' && c != '\r'
}

/// Whether `ch` is a zero-width character.
pub fn is_zero_width_char(ch: char) -> (r: bool)
    ensures
        r == zero_width(ch),
{
    ch == '\u{200B}' || ch == '\u{200C}' || ch == '\u{200D}' || ch == '\u{FEFF}'
}

/// Whether `ch` is a control character other than line feed, tab and carriage
/// return.
pub fn is_control_char(ch: char) -> (r: bool)
    ensures
        r == unwanted_control(ch),
{
    is_control(ch) && ch != '\n' && ch != '\t' && ch != '\r'
}

/// The number of spaces and tabs at the end of `line`.
pub fn count_trailing_ws(line: &str) -> (n: usize)
    ensures
        n == trailing(line@, CharClass::Blank),
{
    let chars = chars_of(line);
    count_trailing(chars.as_slice(), CharClass::Blank)
}

/// A character survives stripping.
pub open spec fn survives(c: char, strip_zero_width: bool, strip_control: bool) -> bool {
    !(strip_zero_width && zero_width(c)) && !(strip_control && unwanted_control(c))
}

/// The characters of `text` that survive stripping.
pub open spec fn kept(text: Seq<char>, strip_zero_width: bool, strip_control: bool) -> Seq<char> {
    text.filter(|c: char| survives(c, strip_zero_width, strip_control))
}

/// The zero-width characters of `text`.
pub open spec fn zero_width_chars(text: Seq<char>) -> Seq<char> {
    text.filter(|c: char| zero_width(c))
}

/// The unwanted control characters of `text`.
pub open spec fn control_chars(text: Seq<char>) -> Seq<char> {
    text.filter(|c: char| unwanted_control(c))
}

/// The content of a chunk: the chunk without its line feed and without the
/// carriage return before it.
pub open spec fn chunk_content(chunk: Seq<char>) -> Seq<char> {
    let line = if chunk.len() > 0 && chunk.last() == '\n' {
        chunk.drop_last()
    } else {
        chunk
    };
    if line.len() > 0 && line.last() == '\r' {
        line.drop_last()
    } else {
        line
    }
}

/// The terminator of a chunk: what follows its content.
pub open spec fn chunk_terminator(chunk: Seq<char>) -> Seq<char> {
    chunk.skip(chunk_content(chunk).len() as int)
}

/// A chunk with the trailing spaces and tabs of its content removed, where
/// trimming is on.
pub open spec fn tidy_chunk(chunk: Seq<char>, trim: bool) -> Seq<char> {
    if trim {
        without_trailing(chunk_content(chunk), CharClass::Blank) + chunk_terminator(chunk)
    } else {
        chunk
    }
}

/// The chunks `cs`, each tidied, joined.
pub open spec fn tidied(cs: Seq<Seq<char>>, trim: bool) -> Seq<char>
    decreases cs.len(),
{
    if cs.len() == 0 {
        Seq::empty()
    } else {
        tidied(cs.drop_last(), trim) + tidy_chunk(cs.last(), trim)
    }
}

/// The number of trailing spaces and tabs over all the chunks `cs`.
pub open spec fn trailing_total(cs: Seq<Seq<char>>) -> nat
    decreases cs.len(),
{
    if cs.len() == 0 {
        0
    } else {
        trailing_total(cs.drop_last()) + trailing(chunk_content(cs.last()), CharClass::Blank)
    }
}

/// `s` with a line feed appended where one is asked for and `s` does not end
/// with one.
pub open spec fn with_final_newline(s: Seq<char>, ensure_eol: bool) -> Seq<char> {
    if ensure_eol && !(s.len() > 0 && s.last() == '\n') {
        s.push('\n')
    } else {
        s
    }
}

/// The cleaned form of `text`: stripped, then tidied line by line, then closed
/// with a line feed.
pub open spec fn normalized(text: Seq<char>, opts: NormalizeOptions) -> Seq<char> {
    with_final_newline(
        tidied(
            chunks(kept(text, opts.strip_zero_width, opts.strip_control)),
            opts.trim_trailing_space,
        ),
        opts.ensure_eol,
    )
}

/// The report on `text`: each finding that `opts` asks for.
pub open spec fn report_matches(text: Seq<char>, opts: NormalizeOptions, report: NormalizeReport)
    -> bool {
    &&& report.zero_width == if opts.detect_zero_width {
        Some(zero_width_chars(text).len() as usize)
    } else {
        None
    }
    &&& report.control_chars == if opts.detect_control {
        Some(control_chars(text).len() as usize)
    } else {
        None
    }
    &&& report.trailing_spaces == if opts.detect_trailing_space {
        Some(
            trailing_total(chunks(kept(text, opts.strip_zero_width, opts.strip_control))) as usize,
        )
    } else {
        None
    }
    &&& report.missing_final_newline == if opts.detect_final_newline {
        Some(text.len() > 0 && text.last() != '\n')
    } else {
        None
    }
}

proof fn lemma_scan_step(text: Seq<char>, strip_zero_width: bool, strip_control: bool, i: int)
    requires
        0 <= i < text.len(),
    ensures
        kept(text.take(i + 1), strip_zero_width, strip_control) == if survives(
            text[i],
            strip_zero_width,
            strip_control,
        ) {
            kept(text.take(i), strip_zero_width, strip_control).push(text[i])
        } else {
            kept(text.take(i), strip_zero_width, strip_control)
        },
        zero_width_chars(text.take(i + 1)) == if zero_width(text[i]) {
            zero_width_chars(text.take(i)).push(text[i])
        } else {
            zero_width_chars(text.take(i))
        },
        control_chars(text.take(i + 1)) == if unwanted_control(text[i]) {
            control_chars(text.take(i)).push(text[i])
        } else {
            control_chars(text.take(i))
        },
        zero_width_chars(text.take(i)).len() <= i,
        control_chars(text.take(i)).len() <= i,
{
    reveal(Seq::filter);
    assert(text.take(i + 1).drop_last() =~= text.take(i));
    text.take(i).lemma_filter_len(|c: char| zero_width(c));
    text.take(i).lemma_filter_len(|c: char| unwanted_control(c));
}

proof fn lemma_scan_start(text: Seq<char>, strip_zero_width: bool, strip_control: bool)
    ensures
        kept(text.take(0), strip_zero_width, strip_control) == Seq::<char>::empty(),
        zero_width_chars(text.take(0)) == Seq::<char>::empty(),
        control_chars(text.take(0)) == Seq::<char>::empty(),
{
    reveal(Seq::filter);
    assert(text.take(0) =~= Seq::<char>::empty());
}

/// The trailing run of a chunk's content is no longer than the chunk.
proof fn lemma_trailing_fits(chunk: Seq<char>)
    ensures
        trailing(chunk_content(chunk), CharClass::Blank) <= chunk.len(),
{
    crate::chars::lemma_trailing(chunk_content(chunk), CharClass::Blank);
}

/// Writes one chunk of the stripped text to `cleaned`, tidied, and adds the
/// length of its trailing run of spaces and tabs to `trailing_spaces`.
fn flush_line(
    chunk: &[char],
    cleaned: &mut Vec<char>,
    trim_trailing_space: bool,
    trailing_spaces: &mut usize,
)
    requires
        *old(trailing_spaces) + chunk@.len() <= usize::MAX,
    ensures
        final(cleaned)@ == old(cleaned)@ + tidy_chunk(chunk@, trim_trailing_space),
        *final(trailing_spaces) == *old(trailing_spaces) + trailing(
            chunk_content(chunk@),
            CharClass::Blank,
        ),
{
    let n = chunk.len();
    let mut content_end: usize = n;
    if content_end > 0 && chunk[content_end - 1] == '\n' {
        content_end -= 1;
    }
    if content_end > 0 && chunk[content_end - 1] == '\r' {
        content_end -= 1;
    }
    let content = vstd::slice::slice_subrange(chunk, 0, content_end);
    proof {
        let line = if n > 0 && chunk@.last() == '\n' {
            chunk@.drop_last()
        } else {
            chunk@
        };
        assert(line =~= chunk@.subrange(0, line.len() as int));
        assert(content@ =~= chunk_content(chunk@));
        lemma_trailing_fits(chunk@);
    }
    let run = count_trailing(content, CharClass::Blank);
    *trailing_spaces = *trailing_spaces + run;
    if trim_trailing_space {
        let body = vstd::slice::slice_subrange(content, 0, content_end - run);
        let terminator = vstd::slice::slice_subrange(chunk, content_end, n);
        assert(terminator@ =~= chunk_terminator(chunk@));
        assert(body@ =~= without_trailing(chunk_content(chunk@), CharClass::Blank));
        push_all(cleaned, body);
        push_all(cleaned, terminator);
        assert(cleaned@ =~= old(cleaned)@ + tidy_chunk(chunk@, trim_trailing_space));
    } else {
        push_all(cleaned, chunk);
    }
}

/// The sum of the trailing runs never exceeds the number of characters.
proof fn lemma_trailing_total_fits(cs: Seq<Seq<char>>)
    ensures
        trailing_total(cs) <= total_len(cs),
    decreases cs.len(),
{
    if cs.len() > 0 {
        lemma_trailing_total_fits(cs.drop_last());
        lemma_trailing_fits(cs.last());
    }
}

/// The number of characters in all of `cs`.
pub open spec fn total_len(cs: Seq<Seq<char>>) -> nat
    decreases cs.len(),
{
    if cs.len() == 0 {
        0
    } else {
        total_len(cs.drop_last()) + cs.last().len()
    }
}

/// Scans `text` for what `opts` asks to detect and cleans it of what `opts`
/// asks to remove. The cleaned text is given only where it differs from
/// `text`.
pub fn normalize_text(text: &str, opts: &NormalizeOptions) -> (r: NormalizeOutcome)
    ensures
        report_matches(text@, *opts, r.report),
        match r.cleaned {
            Some(cleaned) => cleaned@ == normalized(text@, *opts) && cleaned@ != text@,
            None => normalized(text@, *opts) == text@,
        },
{
    let chars = chars_of(text);
    let mut zero_width_found: usize = 0;
    let mut control_found: usize = 0;
    let mut stripped: Vec<char> = Vec::new();
    let mut i: usize = 0;
    proof {
        lemma_scan_start(text@, opts.strip_zero_width, opts.strip_control);
    }
    while i < chars.len()
        invariant
            i <= chars.len(),
            chars@ == text@,
            stripped@ == kept(text@.take(i as int), opts.strip_zero_width, opts.strip_control),
            stripped.len() <= i,
            zero_width_found == zero_width_chars(text@.take(i as int)).len(),
            control_found == control_chars(text@.take(i as int)).len(),
        decreases chars.len() - i,
    {
        let ch = chars[i];
        proof {
            lemma_scan_step(text@, opts.strip_zero_width, opts.strip_control, i as int);
        }
        let zero = is_zero_width_char(ch);
        let control = is_control_char(ch);
        if zero {
            zero_width_found += 1;
        }
        if control {
            control_found += 1;
        }
        if !(zero && opts.strip_zero_width) && !(control && opts.strip_control) {
            stripped.push(ch);
        }
        i += 1;
    }
    assert(text@.take(chars.len() as int) =~= text@);
    let pieces = split_chunks(stripped.as_slice());
    let ghost cs = chunks(stripped@);
    let mut cleaned: Vec<char> = Vec::new();
    let mut trailing_found: usize = 0;
    let mut k: usize = 0;
    assert(cs.take(0) =~= Seq::<Seq<char>>::empty());
    proof {
        lemma_chunks_total(stripped@);
    }
    while k < pieces.len()
        invariant
            k <= pieces.len(),
            rows(pieces@) == cs,
            total_len(cs) <= usize::MAX,
            cleaned@ == tidied(cs.take(k as int), opts.trim_trailing_space),
            trailing_found == trailing_total(cs.take(k as int)),
            trailing_found <= total_len(cs.take(k as int)),
            total_len(cs.take(k as int)) <= total_len(cs),
        decreases pieces.len() - k,
    {
        proof {
            assert(rows(pieces@)[k as int] == pieces@[k as int]@);
            assert(cs.take(k + 1).drop_last() =~= cs.take(k as int));
            assert(cs.take(k + 1).last() == pieces@[k as int]@);
            lemma_total_len_prefix(cs, k + 1);
            lemma_trailing_total_fits(cs.take(k + 1));
        }
        flush_line(
            pieces[k].as_slice(),
            &mut cleaned,
            opts.trim_trailing_space,
            &mut trailing_found,
        );
        k += 1;
    }
    assert(rows(pieces@).len() == pieces.len());
    assert(cs.take(pieces.len() as int) =~= cs);
    if opts.ensure_eol && !(cleaned.len() > 0 && cleaned[cleaned.len() - 1] == '\n') {
        cleaned.push('\n');
    }
    let report = NormalizeReport {
        zero_width: if opts.detect_zero_width {
            Some(zero_width_found)
        } else {
            None
        },
        control_chars: if opts.detect_control {
            Some(control_found)
        } else {
            None
        },
        trailing_spaces: if opts.detect_trailing_space {
            Some(trailing_found)
        } else {
            None
        },
        missing_final_newline: if opts.detect_final_newline {
            Some(chars.len() > 0 && chars[chars.len() - 1] != '\n')
        } else {
            None
        },
    };
    if same_chars(cleaned.as_slice(), chars.as_slice()) {
        NormalizeOutcome { report, cleaned: None }
    } else {
        NormalizeOutcome { report, cleaned: Some(string_of(cleaned.as_slice())) }
    }
}

/// The chunks of a text hold exactly its characters.
proof fn lemma_chunks_total(s: Seq<char>)
    ensures
        total_len(chunks(s)) == s.len(),
    decreases s.len(),
{
    if s.len() > 0 {
        lemma_chunks_total(s.drop_last());
        let before = chunks(s.drop_last());
        if before.len() > 0 && before.last().len() > 0 && before.last().last() != '\n' {
            let joined = before.drop_last().push(before.last().push(s.last()));
            assert(joined.drop_last() =~= before.drop_last());
        } else {
            assert(before.push(seq![s.last()]).drop_last() =~= before);
        }
    }
}

/// A prefix of the chunks holds no more characters than all of them.
proof fn lemma_total_len_prefix(cs: Seq<Seq<char>>, k: int)
    requires
        0 <= k <= cs.len(),
    ensures
        total_len(cs.take(k)) <= total_len(cs),
    decreases cs.len(),
{
    if k < cs.len() {
        assert(cs.drop_last().take(k) =~= cs.take(k));
        lemma_total_len_prefix(cs.drop_last(), k);
    } else {
        assert(cs.take(k) =~= cs);
    }
}

} // verus!

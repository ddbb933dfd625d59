//! Line-ending styles: detection, normalisation to LF and restoration.

use vstd::prelude::*;
use crate::text::{chars_of, contains, contains_seq, push_all, string_of};

verus! {

/// The line terminator that dominates a text.
#[derive(Clone, Copy, Debug, PartialEq, Eq)]
pub enum LineEndingStyle {
    Lf,
    Crlf,
    Cr,
}

/// The line terminator a caller asks for when writing a file.
#[derive(Clone, Copy, Debug, PartialEq, Eq)]
pub enum LineEndingChoice {
    Auto,
    Lf,
    Crlf,
    Cr,
}

impl Default for LineEndingChoice {
    fn default() -> (r: Self)
        ensures
            r == LineEndingChoice::Auto,
    {
        LineEndingChoice::Auto
    }
}

impl LineEndingStyle {
    /// The characters of the terminator.
    pub open spec fn terminator(self) -> Seq<char> {
        match self {
            LineEndingStyle::Lf => seq!['\n'],
            LineEndingStyle::Crlf => seq!['\r', '\n'],
            LineEndingStyle::Cr => seq!['\r'],
        }
    }

    /// The characters of the terminator.
    pub fn terminator_chars(self) -> (out: Vec<char>)
        ensures
            out@ == self.terminator(),
    {
        match self {
            LineEndingStyle::Lf => {
                let v: Vec<char> = vec!['\n'];
                assert(v@ =~= seq!['\n']);
                v
            },
            LineEndingStyle::Crlf => {
                let v: Vec<char> = vec!['\r', '\n'];
                assert(v@ =~= seq!['\r', '\n']);
                v
            },
            LineEndingStyle::Cr => {
                let v: Vec<char> = vec!['\r'];
                assert(v@ =~= seq!['\r']);
                v
            },
        }
    }
}

/// `std::path::MAIN_SEPARATOR`, the character that separates the components
/// of a path on the running platform. Nothing is claimed of it: it depends on
/// the machine.
#[verifier::external_body]
fn platform_separator() -> char {
    std::path::MAIN_SEPARATOR
}

/// The terminator native to a platform that separates the components of a
/// path by `separator`: CRLF where that is a backslash, else LF.
pub open spec fn native_style(separator: char) -> LineEndingStyle {
    if separator == '\\' {
        LineEndingStyle::Crlf
    } else {
        LineEndingStyle::Lf
    }
}

/// The terminator native to a platform that separates the components of a
/// path by `separator`.
pub fn native_line_ending(separator: char) -> (r: LineEndingStyle)
    ensures
        r == native_style(separator),
{
    if separator == '\\' {
        LineEndingStyle::Crlf
    } else {
        LineEndingStyle::Lf
    }
}

/// The terminator native to the running platform: CRLF where paths are
/// separated by a backslash, else LF.
pub fn system_default_line_ending() -> (r: LineEndingStyle)
    ensures
        r == LineEndingStyle::Crlf || r == LineEndingStyle::Lf,
{
    native_line_ending(platform_separator())
}

impl LineEndingChoice {
    /// The style to write with: an explicit choice wins, `Auto` keeps the
    /// existing style and falls back to the platform default.
    pub fn resolve(self, existing: Option<LineEndingStyle>) -> (r: LineEndingStyle)
        ensures
            self == LineEndingChoice::Lf ==> r == LineEndingStyle::Lf,
            self == LineEndingChoice::Crlf ==> r == LineEndingStyle::Crlf,
            self == LineEndingChoice::Cr ==> r == LineEndingStyle::Cr,
            self == LineEndingChoice::Auto && existing is Some ==> r == existing->0,
            self == LineEndingChoice::Auto && existing is None ==> r == LineEndingStyle::Crlf || r
                == LineEndingStyle::Lf,
    {
        match self {
            LineEndingChoice::Auto => match existing {
                Some(style) => style,
                None => system_default_line_ending(),
            },
            LineEndingChoice::Lf => LineEndingStyle::Lf,
            LineEndingChoice::Crlf => LineEndingStyle::Crlf,
            LineEndingChoice::Cr => LineEndingStyle::Cr,
        }
    }
}

/// The dominant style of `text`: CRLF if any CRLF pair occurs, else CR if any
/// carriage return occurs, else LF.
pub open spec fn style_of(text: Seq<char>) -> LineEndingStyle {
    if contains_seq(text, seq!['\r', '\n']) {
        LineEndingStyle::Crlf
    } else if contains_seq(text, seq!['\r']) {
        LineEndingStyle::Cr
    } else {
        LineEndingStyle::Lf
    }
}

/// The dominant line-ending style of `text`.
pub fn detect_line_ending_style(text: &str) -> (r: LineEndingStyle)
    ensures
        r == style_of(text@),
{
    let chars = chars_of(text);
    let crlf: Vec<char> = vec!['\r', '\n'];
    let cr: Vec<char> = vec!['\r'];
    assert(crlf@ =~= seq!['\r', '\n']);
    assert(cr@ =~= seq!['\r']);
    if contains(chars.as_slice(), crlf.as_slice()) {
        LineEndingStyle::Crlf
    } else if contains(chars.as_slice(), cr.as_slice()) {
        LineEndingStyle::Cr
    } else {
        LineEndingStyle::Lf
    }
}

/// `text` with every line break (a CRLF pair, a lone CR or a lone LF) replaced
/// by `newline`.
pub open spec fn with_line_breaks(text: Seq<char>, newline: Seq<char>) -> Seq<char>
    decreases text.len(),
{
    if text.len() == 0 {
        text
    } else if text[0] == '\r' && text.len() > 1 && text[1] == '\n' {
        newline + with_line_breaks(text.skip(2), newline)
    } else if text[0] == '\r' || text[0] == '\n' {
        newline + with_line_breaks(text.skip(1), newline)
    } else {
        seq![text[0]] + with_line_breaks(text.skip(1), newline)
    }
}

/// `text` with every LF replaced by `newline`.
pub open spec fn with_lf_as(text: Seq<char>, newline: Seq<char>) -> Seq<char>
    decreases text.len(),
{
    if text.len() == 0 {
        text
    } else if text[0] == '\n' {
        newline + with_lf_as(text.skip(1), newline)
    } else {
        seq![text[0]] + with_lf_as(text.skip(1), newline)
    }
}

/// Replaces every line break of `input` by `newline`.
pub fn replace_line_breaks(input: &[char], newline: &[char]) -> (out: Vec<char>)
    ensures
        out@ == with_line_breaks(input@, newline@),
{
    let mut out: Vec<char> = Vec::new();
    let mut i: usize = 0;
    assert(input@.skip(0) == input@);
    assert(out@ + with_line_breaks(input@, newline@) == with_line_breaks(input@, newline@));
    while i < input.len()
        invariant
            i <= input.len(),
            with_line_breaks(input@, newline@) == out@ + with_line_breaks(
                input@.skip(i as int),
                newline@,
            ),
        decreases input.len() - i,
    {
        let ghost rest = input@.skip(i as int);
        let ch = input[i];
        assert(rest[0] == ch);
        if ch == '\r' && i + 1 < input.len() && input[i + 1] == '\n' {
            assert(rest[1] == input@[i + 1]);
            assert(rest.skip(2) == input@.skip(i + 2));
            push_all(&mut out, newline);
            i += 2;
        } else if ch == '\r' || ch == '\n' {
            assert(rest.len() > 1 ==> rest[1] == input@[i + 1]);
            assert(rest.skip(1) == input@.skip(i + 1));
            push_all(&mut out, newline);
            i += 1;
        } else {
            assert(rest.skip(1) == input@.skip(i + 1));
            out.push(ch);
            i += 1;
        }
    }
    out
}

/// Replaces every LF of `input` by `newline`.
pub fn replace_lf(input: &[char], newline: &[char]) -> (out: Vec<char>)
    ensures
        out@ == with_lf_as(input@, newline@),
{
    let mut out: Vec<char> = Vec::new();
    let mut i: usize = 0;
    assert(input@.skip(0) == input@);
    assert(out@ + with_lf_as(input@, newline@) == with_lf_as(input@, newline@));
    while i < input.len()
        invariant
            i <= input.len(),
            with_lf_as(input@, newline@) == out@ + with_lf_as(input@.skip(i as int), newline@),
        decreases input.len() - i,
    {
        let ghost rest = input@.skip(i as int);
        let ch = input[i];
        assert(rest[0] == ch);
        assert(rest.skip(1) == input@.skip(i + 1));
        if ch == '\n' {
            push_all(&mut out, newline);
        } else {
            out.push(ch);
        }
        i += 1;
    }
    out
}

/// `text` with every line break turned into a single LF.
pub fn normalize_to_lf(text: &str) -> (out: String)
    ensures
        out@ == with_line_breaks(text@, seq!['\n']),
{
    let chars = chars_of(text);
    let lf: Vec<char> = vec!['\n'];
    assert(lf@ =~= seq!['\n']);
    let out = replace_line_breaks(chars.as_slice(), lf.as_slice());
    string_of(out.as_slice())
}

/// `text`, whose line breaks are LF, with each LF turned into the terminator of
/// `style`.
pub fn restore_from_lf(text: String, style: LineEndingStyle) -> (out: String)
    ensures
        style == LineEndingStyle::Lf ==> out@ == text@,
        out@ == with_lf_as(text@, style.terminator()),
{
    match style {
        LineEndingStyle::Lf => {
            proof {
                lemma_lf_as_lf(text@);
            }
            text
        },
        _ => {
            let chars = chars_of(text.as_str());
            let nl = style.terminator_chars();
            let out = replace_lf(chars.as_slice(), nl.as_slice());
            string_of(out.as_slice())
        },
    }
}

/// Replacing each LF by an LF changes nothing.
pub proof fn lemma_lf_as_lf(text: Seq<char>)
    ensures
        with_lf_as(text, seq!['\n']) == text,
    decreases text.len(),
{
    if text.len() > 0 {
        lemma_lf_as_lf(text.skip(1));
        assert(seq![text[0]] + text.skip(1) == text);
    }
}

} // verus!

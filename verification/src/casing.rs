//! Letter case: the case shape of a word, and rendering a word in that shape.
//!
//! Which characters are letters, and what their upper and lower forms are, is
//! decided by the Unicode tables of the standard library. Their answers are
//! named here and not restated.

use vstd::prelude::*;
use crate::text::{chars_of, push_all, string_of};

verus! {

/// Whether `c` has the Unicode `Alphabetic` property, as `char::is_alphabetic`
/// answers.
pub uninterp spec fn alphabetic(c: char) -> bool;

/// Whether `c` has the Unicode `Uppercase` property, as `char::is_uppercase`
/// answers.
pub uninterp spec fn uppercase(c: char) -> bool;

/// Whether `c` has the Unicode `Lowercase` property, as `char::is_lowercase`
/// answers.
pub uninterp spec fn lowercase(c: char) -> bool;

/// The upper-case form of the text `s`, as `str::to_uppercase` gives it.
pub uninterp spec fn upper_text(s: Seq<char>) -> Seq<char>;

/// The lower-case form of the text `s`, as `str::to_lowercase` gives it.
pub uninterp spec fn lower_text(s: Seq<char>) -> Seq<char>;

/// The upper-case form of the single character `c`, as `char::to_uppercase`
/// yields it; it may be several characters long.
pub uninterp spec fn upper_char(c: char) -> Seq<char>;

/// The lower-case form of the single character `c`, as `char::to_lowercase`
/// yields it; it may be several characters long.
pub uninterp spec fn lower_char(c: char) -> Seq<char>;

/// `char::is_alphabetic` decides the Unicode `Alphabetic` property.
pub assume_specification[ char::is_alphabetic ](c: char) -> (b: bool)
    ensures
        b == alphabetic(c),
;

/// `char::is_uppercase` decides the Unicode `Uppercase` property.
pub assume_specification[ char::is_uppercase ](c: char) -> (b: bool)
    ensures
        b == uppercase(c),
;

/// `char::is_lowercase` decides the Unicode `Lowercase` property.
pub assume_specification[ char::is_lowercase ](c: char) -> (b: bool)
    ensures
        b == lowercase(c),
;

/// `str::to_uppercase` returns the upper-case form of the whole text.
pub assume_specification[ str::to_uppercase ](s: &str) -> (r: String)
    ensures
        r@ == upper_text(s@),
;

/// `str::to_lowercase` returns the lower-case form of the whole text.
pub assume_specification[ str::to_lowercase ](s: &str) -> (r: String)
    ensures
        r@ == lower_text(s@),
;

/// `char::to_uppercase` yields the characters of the upper-case form of `c`;
/// they are collected in order.
#[verifier::external_body]
fn upper_char_of(c: char) -> (r: Vec<char>)
    ensures
        r@ == upper_char(c),
{
    c.to_uppercase().collect()
}

/// `char::to_lowercase` yields the characters of the lower-case form of `c`;
/// they are collected in order.
#[verifier::external_body]
fn lower_char_of(c: char) -> (r: Vec<char>)
    ensures
        r@ == lower_char(c),
{
    c.to_lowercase().collect()
}

/// The case shape of a word.
#[derive(Debug, Clone, Copy, PartialEq, Eq)]
pub enum CaseKind {
    /// Every letter is upper case.
    Upper,
    /// Every letter is lower case.
    Lower,
    /// The first character is upper case and no other is.
    Capitalized,
    /// Anything else, a word without letters included.
    Mixed,
}

/// Some character of `s` is a letter.
pub open spec fn has_letter(s: Seq<char>) -> bool {
    exists|i: int| 0 <= i < s.len() && alphabetic(#[trigger] s[i])
}

/// Every letter of `s` is upper case.
pub open spec fn letters_all_upper(s: Seq<char>) -> bool {
    forall|i: int| 0 <= i < s.len() && alphabetic(#[trigger] s[i]) ==> uppercase(s[i])
}

/// Every letter of `s` is lower case and not upper case.
pub open spec fn letters_all_lower(s: Seq<char>) -> bool {
    forall|i: int|
        0 <= i < s.len() && alphabetic(#[trigger] s[i]) ==> lowercase(s[i]) && !uppercase(s[i])
}

/// The first character of `s` is upper case and no later one is.
pub open spec fn is_capitalized(s: Seq<char>) -> bool {
    &&& s.len() > 0
    &&& uppercase(s[0])
    &&& forall|i: int| 1 <= i < s.len() ==> !uppercase(#[trigger] s[i])
}

/// The case shape of `s`.
pub open spec fn case_kind_of(s: Seq<char>) -> CaseKind {
    if !has_letter(s) {
        CaseKind::Mixed
    } else if letters_all_upper(s) {
        CaseKind::Upper
    } else if letters_all_lower(s) {
        CaseKind::Lower
    } else if is_capitalized(s) {
        CaseKind::Capitalized
    } else {
        CaseKind::Mixed
    }
}

/// The case shape of `text`.
pub fn detect_case_kind_chars(text: &[char]) -> (r: CaseKind)
    ensures
        r == case_kind_of(text@),
{
    let mut has_alpha = false;
    let mut all_upper = true;
    let mut all_lower = true;
    let mut rest_not_upper = true;
    let mut idx: usize = 0;
    while idx < text.len()
        invariant
            idx <= text.len(),
            has_alpha == has_letter(text@.take(idx as int)),
            all_upper == letters_all_upper(text@.take(idx as int)),
            all_lower == letters_all_lower(text@.take(idx as int)),
            rest_not_upper == (forall|i: int| 1 <= i < idx ==> !uppercase(#[trigger] text@[i])),
        decreases text.len() - idx,
    {
        let ch = text[idx];
        let ghost before = text@.take(idx as int);
        let ghost after = text@.take(idx + 1);
        proof {
            assert(after.len() == idx + 1);
            assert(after[idx as int] == ch);
            assert(forall|i: int| 0 <= i < idx ==> after[i] == before[i]);
            if has_letter(before) {
                let w = choose|i: int| 0 <= i < before.len() && alphabetic(#[trigger] before[i]);
                assert(alphabetic(after[w]));
            }
            if has_letter(after) && !alphabetic(ch) {
                let w = choose|i: int| 0 <= i < after.len() && alphabetic(#[trigger] after[i]);
                assert(alphabetic(before[w]));
            }
            if !letters_all_upper(before) {
                let w = choose|i: int|
                    0 <= i < before.len() && alphabetic(#[trigger] before[i]) && !uppercase(
                        before[i],
                    );
                assert(alphabetic(after[w]) && !uppercase(after[w]));
            }
            if !letters_all_lower(before) {
                let w = choose|i: int|
                    0 <= i < before.len() && alphabetic(#[trigger] before[i]) && !(lowercase(
                        before[i],
                    ) && !uppercase(before[i]));
                assert(alphabetic(after[w]) && !(lowercase(after[w]) && !uppercase(after[w])));
            }
        }
        let upper = ch.is_uppercase();
        if ch.is_alphabetic() {
            has_alpha = true;
            if upper {
                all_lower = false;
            } else if ch.is_lowercase() {
                all_upper = false;
            } else {
                all_upper = false;
                all_lower = false;
            }
            proof {
                assert(alphabetic(after[idx as int]));
            }
        }
        if idx > 0 && upper {
            rest_not_upper = false;
        }
        proof {
            if letters_all_upper(before) && (!alphabetic(ch) || uppercase(ch)) {
                assert forall|i: int| 0 <= i < after.len() && alphabetic(
                    #[trigger] after[i],
                ) implies uppercase(after[i]) by {
                    if i < idx {
                        assert(alphabetic(before[i]));
                    }
                }
            }
            if letters_all_lower(before) && (!alphabetic(ch) || (lowercase(ch) && !uppercase(ch))) {
                assert forall|i: int| 0 <= i < after.len() && alphabetic(
                    #[trigger] after[i],
                ) implies lowercase(after[i]) && !uppercase(after[i]) by {
                    if i < idx {
                        assert(alphabetic(before[i]));
                    }
                }
            }
        }
        idx += 1;
    }
    assert(text@.take(text.len() as int) == text@);
    if !has_alpha {
        return CaseKind::Mixed;
    }
    if all_upper {
        CaseKind::Upper
    } else if all_lower {
        CaseKind::Lower
    } else if text.len() > 0 && text[0].is_uppercase() && rest_not_upper {
        CaseKind::Capitalized
    } else {
        CaseKind::Mixed
    }
}

/// The case shape of `text`.
pub fn detect_case_kind(text: &str) -> (r: CaseKind)
    ensures
        r == case_kind_of(text@),
{
    let chars = chars_of(text);
    detect_case_kind_chars(chars.as_slice())
}

/// The lower-case forms of the characters of `s`, one after another.
pub open spec fn lower_each(s: Seq<char>) -> Seq<char>
    decreases s.len(),
{
    if s.len() == 0 {
        s
    } else {
        lower_each(s.drop_last()) + lower_char(s.last())
    }
}

/// `s` with its first character in upper case and every other in lower case.
pub open spec fn capitalized(s: Seq<char>) -> Seq<char> {
    if s.len() == 0 {
        s
    } else {
        upper_char(s[0]) + lower_each(s.skip(1))
    }
}

/// `value` with its first character in upper case and every other in lower
/// case.
pub fn capitalize(value: &str) -> (out: String)
    ensures
        out@ == capitalized(value@),
{
    let chars = chars_of(value);
    let mut output: Vec<char> = Vec::new();
    if chars.len() == 0 {
        return string_of(output.as_slice());
    }
    let first = upper_char_of(chars[0]);
    push_all(&mut output, first.as_slice());
    let ghost rest = chars@.skip(1);
    let mut i: usize = 1;
    assert(rest.take(0) =~= Seq::<char>::empty());
    assert(output@ =~= upper_char(chars@[0]) + lower_each(rest.take(0)));
    while i < chars.len()
        invariant
            1 <= i <= chars.len(),
            rest == chars@.skip(1),
            output@ == upper_char(chars@[0]) + lower_each(rest.take(i - 1)),
        decreases chars.len() - i,
    {
        let lowered = lower_char_of(chars[i]);
        proof {
            assert(rest.take(i as int).drop_last() =~= rest.take(i - 1));
            assert(rest.take(i as int).last() == chars@[i as int]);
        }
        push_all(&mut output, lowered.as_slice());
        assert(output@ =~= upper_char(chars@[0]) + lower_each(rest.take(i as int)));
        i += 1;
    }
    assert(rest.take(chars.len() - 1) =~= rest);
    string_of(output.as_slice())
}

/// `target` rendered in the case shape `kind`; a mixed shape leaves it as it
/// is.
pub open spec fn in_case(kind: CaseKind, target: Seq<char>) -> Seq<char> {
    match kind {
        CaseKind::Upper => upper_text(target),
        CaseKind::Lower => lower_text(target),
        CaseKind::Capitalized => capitalized(target),
        CaseKind::Mixed => target,
    }
}

/// `target` rendered in the case shape of `source`.
pub fn adjust_case(source: &str, target: &str) -> (out: String)
    ensures
        out@ == in_case(case_kind_of(source@), target@),
{
    match detect_case_kind(source) {
        CaseKind::Upper => target.to_uppercase(),
        CaseKind::Lower => target.to_lowercase(),
        CaseKind::Capitalized => capitalize(target),
        CaseKind::Mixed => target.to_owned(),
    }
}

} // verus!

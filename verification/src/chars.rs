//! Character classes, and the counting and trimming of runs of a class.

use vstd::prelude::*;

verus! {

/// A set of characters that the text operations cut or count by.
#[derive(Clone, Copy, Debug, PartialEq, Eq)]
pub enum CharClass {
    /// A character with the Unicode `White_Space` property.
    Whitespace,
    /// A space or a horizontal tab.
    Blank,
    /// The double quote.
    Quote,
    /// The line feed.
    LineFeed,
    /// A carriage return or a line feed.
    LineBreak,
    /// An ASCII decimal digit.
    Digit,
}

/// The characters with the Unicode `White_Space` property.
pub open spec fn is_white_space(c: char) -> bool {
    let u = c as u32;
    ||| 0x09 <= u <= 0x0D
    ||| u == 0x20
    ||| u == 0x85
    ||| u == 0xA0
    ||| u == 0x1680
    ||| 0x2000 <= u <= 0x200A
    ||| u == 0x2028
    ||| u == 0x2029
    ||| u == 0x202F
    ||| u == 0x205F
    ||| u == 0x3000
}

/// The characters of the Unicode general category `Cc`.
pub open spec fn is_control_code(c: char) -> bool {
    let u = c as u32;
    u <= 0x1F || 0x7F <= u <= 0x9F
}

/// The ASCII decimal digits.
pub open spec fn is_digit(c: char) -> bool {
    '0' <= c <= '9'
}

/// Whether `c` has the Unicode `White_Space` property.
pub fn is_whitespace(c: char) -> (r: bool)
    ensures
        r == is_white_space(c),
{
    let u: u32 = c as u32;
    (0x09 <= u && u <= 0x0D) || u == 0x20 || u == 0x85 || u == 0xA0 || u == 0x1680 || (0x2000 <= u
        && u <= 0x200A) || u == 0x2028 || u == 0x2029 || u == 0x202F || u == 0x205F || u == 0x3000
}

/// Whether `c` is a control code.
pub fn is_control(c: char) -> (r: bool)
    ensures
        r == is_control_code(c),
{
    let u: u32 = c as u32;
    u <= 0x1F || (0x7F <= u && u <= 0x9F)
}

/// Whether `c` is an ASCII decimal digit.
pub fn is_ascii_digit(c: char) -> (r: bool)
    ensures
        r == is_digit(c),
{
    let u: u32 = c as u32;
    0x30 <= u && u <= 0x39
}

impl CharClass {
    /// Whether `c` belongs to the class.
    pub open spec fn holds(self, c: char) -> bool {
        match self {
            CharClass::Whitespace => is_white_space(c),
            CharClass::Blank => c == ' ' || c == '\t',
            CharClass::Quote => c == '"',
            CharClass::LineFeed => c == '\n',
            CharClass::LineBreak => c == '\r' || c == '\n',
            CharClass::Digit => is_digit(c),
        }
    }

    /// Whether `c` belongs to the class.
    pub fn test(self, c: char) -> (r: bool)
        ensures
            r == self.holds(c),
    {
        match self {
            CharClass::Whitespace => is_whitespace(c),
            CharClass::Blank => c == ' ' || c == '\t',
            CharClass::Quote => c == '"',
            CharClass::LineFeed => c == '\n',
            CharClass::LineBreak => c == '\r' || c == '\n',
            CharClass::Digit => is_ascii_digit(c),
        }
    }
}

/// The length of the longest prefix of `s` made of characters of `class`.
pub open spec fn leading(s: Seq<char>, class: CharClass) -> nat
    decreases s.len(),
{
    if s.len() > 0 && class.holds(s[0]) {
        1 + leading(s.skip(1), class)
    } else {
        0
    }
}

/// The length of the longest suffix of `s` made of characters of `class`.
pub open spec fn trailing(s: Seq<char>, class: CharClass) -> nat
    decreases s.len(),
{
    if s.len() > 0 && class.holds(s.last()) {
        1 + trailing(s.drop_last(), class)
    } else {
        0
    }
}

/// Every character of `s` belongs to `class`.
pub open spec fn all_in(s: Seq<char>, class: CharClass) -> bool {
    forall|i: int| 0 <= i < s.len() ==> class.holds(#[trigger] s[i])
}

/// `s` without its leading run of `class`.
pub open spec fn without_leading(s: Seq<char>, class: CharClass) -> Seq<char> {
    s.skip(leading(s, class) as int)
}

/// `s` without its trailing run of `class`.
pub open spec fn without_trailing(s: Seq<char>, class: CharClass) -> Seq<char> {
    s.take(s.len() - trailing(s, class))
}

/// `s` without its leading and trailing runs of `class`.
pub open spec fn trimmed(s: Seq<char>, class: CharClass) -> Seq<char> {
    without_trailing(without_leading(s, class), class)
}

/// A leading run is a prefix: it is no longer than the sequence, all of it
/// belongs to the class, and the character after it does not.
pub proof fn lemma_leading(s: Seq<char>, class: CharClass)
    ensures
        leading(s, class) <= s.len(),
        forall|i: int| 0 <= i < leading(s, class) ==> class.holds(#[trigger] s[i]),
        leading(s, class) < s.len() ==> !class.holds(s[leading(s, class) as int]),
    decreases s.len(),
{
    if s.len() > 0 && class.holds(s[0]) {
        let rest = s.skip(1);
        lemma_leading(rest, class);
        assert forall|i: int| 0 <= i < leading(s, class) implies class.holds(#[trigger] s[i]) by {
            if i > 0 {
                assert(s[i] == rest[i - 1]);
            }
        }
        if leading(s, class) < s.len() {
            assert(s[leading(s, class) as int] == rest[leading(rest, class) as int]);
        }
    }
}

/// A trailing run is a suffix: it is no longer than the sequence, all of it
/// belongs to the class, and the character before it does not.
pub proof fn lemma_trailing(s: Seq<char>, class: CharClass)
    ensures
        trailing(s, class) <= s.len(),
        forall|i: int| s.len() - trailing(s, class) <= i < s.len() ==> class.holds(#[trigger] s[i]),
        trailing(s, class) < s.len() ==> !class.holds(s[s.len() - trailing(s, class) - 1]),
    decreases s.len(),
{
    if s.len() > 0 && class.holds(s.last()) {
        let rest = s.drop_last();
        lemma_trailing(rest, class);
        assert forall|i: int| s.len() - trailing(s, class) <= i < s.len() implies class.holds(
            #[trigger] s[i],
        ) by {
            if i < s.len() - 1 {
                assert(s[i] == rest[i]);
            }
        }
        if trailing(s, class) < s.len() {
            assert(s[s.len() - trailing(s, class) - 1] == rest[rest.len() - trailing(rest, class)
                - 1]);
        }
    }
}

/// A sequence is all of one class exactly when its leading run is all of it.
pub proof fn lemma_all_in_leading(s: Seq<char>, class: CharClass)
    ensures
        all_in(s, class) <==> leading(s, class) == s.len(),
{
    lemma_leading(s, class);
    if leading(s, class) < s.len() {
        assert(!class.holds(s[leading(s, class) as int]));
    }
}

/// The length of the leading run of `class` in `s`.
pub fn count_leading(s: &[char], class: CharClass) -> (n: usize)
    ensures
        n == leading(s@, class),
        n <= s.len(),
{
    let mut i: usize = 0;
    assert(s@.skip(0) == s@);
    while i < s.len() && class.test(s[i])
        invariant
            i <= s.len(),
            leading(s@, class) == i + leading(s@.skip(i as int), class),
        decreases s.len() - i,
    {
        assert(s@.skip(i as int)[0] == s@[i as int]);
        assert(s@.skip(i as int).skip(1) == s@.skip(i + 1));
        i += 1;
    }
    proof {
        if i < s.len() {
            assert(s@.skip(i as int)[0] == s@[i as int]);
        }
    }
    i
}

/// The length of the trailing run of `class` in `s`.
pub fn count_trailing(s: &[char], class: CharClass) -> (n: usize)
    ensures
        n == trailing(s@, class),
        n <= s.len(),
{
    let mut j: usize = s.len();
    assert(s@.take(j as int) == s@);
    while j > 0 && class.test(s[j - 1])
        invariant
            j <= s.len(),
            trailing(s@, class) == (s.len() - j) + trailing(s@.take(j as int), class),
        decreases j,
    {
        assert(s@.take(j as int).last() == s@[j - 1]);
        assert(s@.take(j as int).drop_last() == s@.take(j - 1));
        j -= 1;
    }
    proof {
        if j > 0 {
            assert(s@.take(j as int).last() == s@[j - 1]);
        }
    }
    s.len() - j
}

/// Whether every character of `s` belongs to `class`.
pub fn all_of(s: &[char], class: CharClass) -> (r: bool)
    ensures
        r == all_in(s@, class),
{
    let n = count_leading(s, class);
    proof {
        lemma_all_in_leading(s@, class);
    }
    n == s.len()
}

/// The bounds of `s` without its leading and trailing runs of `class`.
pub fn trim_bounds(s: &[char], class: CharClass) -> (r: (usize, usize))
    ensures
        r.0 <= r.1 <= s.len(),
        r.0 == leading(s@, class),
        s@.subrange(r.0 as int, r.1 as int) == trimmed(s@, class),
{
    let start = count_leading(s, class);
    let rest = vstd::slice::slice_subrange(s, start, s.len());
    assert(rest@ == s@.skip(start as int));
    let cut = count_trailing(rest, class);
    let end: usize = s.len() - cut;
    assert(rest@.take(rest@.len() - cut) == s@.subrange(start as int, end as int));
    (start, end)
}

} // verus!

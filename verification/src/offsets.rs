//! Byte offsets into the UTF-8 form of a text, and their character indices.
//!
//! A text is a sequence of characters; pattern matching reports positions as
//! byte offsets into its UTF-8 encoding. This module relates the two.

use vstd::prelude::*;
use vstd::string::StringSliceAdditionalSpecFns;
use vstd::utf8::{encode_scalar, encode_utf8};

use crate::text::chars_of;

verus! {

/// The number of bytes in the UTF-8 encoding of `c`.
pub open spec fn utf8_width(c: char) -> nat {
    encode_scalar(c as u32).len()
}

/// The number of bytes in the UTF-8 encoding of `s`.
pub open spec fn byte_len(s: Seq<char>) -> nat
    decreases s.len(),
{
    if s.len() == 0 {
        0
    } else {
        byte_len(s.drop_last()) + utf8_width(s.last())
    }
}

/// The byte offset at which the character with index `k` starts.
pub open spec fn byte_offset(s: Seq<char>, k: int) -> nat {
    byte_len(s.take(k))
}

/// `off` is the byte offset of the start of a character of `s`, or of its end.
pub open spec fn is_boundary(s: Seq<char>, off: int) -> bool {
    exists|k: int| 0 <= k <= s.len() && #[trigger] byte_offset(s, k) == off
}

/// The index of the character that starts at byte offset `off`.
pub open spec fn char_index(s: Seq<char>, off: int) -> int {
    choose|k: int| 0 <= k <= s.len() && #[trigger] byte_offset(s, k) == off
}

/// Every character takes between one and four bytes.
pub proof fn lemma_utf8_width(c: char)
    ensures
        1 <= utf8_width(c) <= 4,
{
}

proof fn lemma_encode_push(s: Seq<char>, c: char)
    ensures
        encode_utf8(s.push(c)) == encode_utf8(s) + encode_scalar(c as u32),
    decreases s.len(),
{
    if s.len() == 0 {
        assert(s.push(c).drop_first() =~= s);
        assert(encode_utf8(s.push(c)) =~= encode_utf8(s) + encode_scalar(c as u32));
    } else {
        assert(s.push(c).drop_first() =~= s.drop_first().push(c));
        lemma_encode_push(s.drop_first(), c);
        assert(encode_utf8(s.push(c)) =~= encode_utf8(s) + encode_scalar(c as u32));
    }
}

/// `byte_len` is the length of the UTF-8 encoding.
pub proof fn lemma_byte_len_encoded(s: Seq<char>)
    ensures
        byte_len(s) == encode_utf8(s).len(),
    decreases s.len(),
{
    if s.len() > 0 {
        lemma_byte_len_encoded(s.drop_last());
        lemma_encode_push(s.drop_last(), s.last());
        assert(s.drop_last().push(s.last()) =~= s);
    }
}

/// Byte offsets grow strictly with the character index.
pub proof fn lemma_byte_offset_increases(s: Seq<char>, i: int, j: int)
    requires
        0 <= i < j <= s.len(),
    ensures
        byte_offset(s, i) < byte_offset(s, j),
    decreases j - i,
{
    assert(s.take(j).drop_last() =~= s.take(j - 1));
    lemma_utf8_width(s.take(j).last());
    if i < j - 1 {
        lemma_byte_offset_increases(s, i, j - 1);
    }
}

/// A boundary offset belongs to exactly one character index.
pub proof fn lemma_char_index_unique(s: Seq<char>, k: int)
    requires
        0 <= k <= s.len(),
    ensures
        is_boundary(s, byte_offset(s, k) as int),
        char_index(s, byte_offset(s, k) as int) == k,
{
    let off = byte_offset(s, k) as int;
    let c = char_index(s, off);
    assert(0 <= c <= s.len() && byte_offset(s, c) == off);
    if c < k {
        lemma_byte_offset_increases(s, c, k);
    }
    if k < c {
        lemma_byte_offset_increases(s, k, c);
    }
}

/// The number of bytes in the UTF-8 encoding of `c`.
pub fn utf8_width_of(c: char) -> (w: usize)
    ensures
        w == utf8_width(c),
        1 <= w <= 4,
{
    let u: u32 = c as u32;
    if u < 0x80 {
        1
    } else if u < 0x800 {
        2
    } else if u < 0x10000 {
        3
    } else {
        4
    }
}

/// The values of `v` ascend (not necessarily strictly).
pub open spec fn ascending(v: Seq<usize>) -> bool {
    forall|i: int, j: int| 0 <= i <= j < v.len() ==> v[i] <= v[j]
}

/// The number of entries of the ascending slice `v` that are at most `x`: every
/// entry before the returned position is at most `x`, every entry from it on
/// is greater.
pub fn upper_bound(v: &[usize], x: usize) -> (pos: usize)
    requires
        ascending(v@),
    ensures
        pos <= v.len(),
        forall|i: int| 0 <= i < pos ==> v[i] <= x,
        forall|i: int| pos <= i < v.len() ==> v[i] > x,
{
    let mut lo: usize = 0;
    let mut hi: usize = v.len();
    while lo < hi
        invariant
            lo <= hi <= v.len(),
            ascending(v@),
            forall|i: int| 0 <= i < lo ==> v[i] <= x,
            forall|i: int| hi <= i < v.len() ==> v[i] > x,
        decreases hi - lo,
    {
        let mid: usize = lo + (hi - lo) / 2;
        if v[mid] <= x {
            lo = mid + 1;
        } else {
            hi = mid;
        }
    }
    lo
}

/// A text as characters, with the byte offset of each of them.
pub struct TextIndex {
    pub chars: Vec<char>,
    pub offsets: Vec<usize>,
}

impl TextIndex {
    /// The offsets are those of the characters: one per character and one for
    /// the end of the text.
    pub open spec fn wf(&self) -> bool {
        &&& self.offsets.len() == self.chars.len() + 1
        &&& forall|k: int|
            0 <= k <= self.chars.len() ==> #[trigger] self.offsets[k] == byte_offset(self.chars@, k)
    }

    /// Indexes `text`.
    pub fn new(text: &str) -> (r: Self)
        ensures
            r.wf(),
            r.chars@ == text@,
    {
        let total: usize = text.as_bytes().len();
        let chars = chars_of(text);
        proof {
            lemma_byte_len_encoded(text@);
            assert(text.spec_bytes() == encode_utf8(text@));
            assert(byte_len(chars@) == total);
        }
        let mut offsets: Vec<usize> = Vec::new();
        offsets.push(0);
        let mut k: usize = 0;
        let mut pos: usize = 0;
        assert(chars@.take(0) =~= Seq::<char>::empty());
        while k < chars.len()
            invariant
                k <= chars.len(),
                byte_len(chars@) <= usize::MAX,
                pos == byte_offset(chars@, k as int),
                offsets.len() == k + 1,
                forall|j: int| 0 <= j <= k ==> #[trigger] offsets[j] == byte_offset(chars@, j),
            decreases chars.len() - k,
        {
            let w = utf8_width_of(chars[k]);
            proof {
                assert(chars@.take(k + 1).drop_last() =~= chars@.take(k as int));
                assert(chars@.take(k + 1).last() == chars@[k as int]);
                assert(chars@.take(chars.len() as int) =~= chars@);
                if k + 1 < chars.len() {
                    lemma_byte_offset_increases(chars@, k + 1, chars.len() as int);
                }
            }
            pos = pos + w;
            offsets.push(pos);
            k += 1;
        }
        TextIndex { chars, offsets }
    }

    /// The index of the character that starts at byte offset `off`, if one
    /// does.
    pub fn char_at_offset(&self, off: usize) -> (r: Option<usize>)
        requires
            self.wf(),
        ensures
            r is Some <==> is_boundary(self.chars@, off as int),
            r matches Some(k) ==> k <= self.chars.len() && k == char_index(self.chars@, off as int)
                && byte_offset(self.chars@, k as int) == off,
    {
        proof {
            assert forall|i: int, j: int| 0 <= i <= j < self.offsets.len() implies self.offsets[i]
                <= self.offsets[j] by {
                if i < j {
                    lemma_byte_offset_increases(self.chars@, i, j);
                }
            }
        }
        let pos = upper_bound(self.offsets.as_slice(), off);
        if pos > 0 && self.offsets[pos - 1] == off {
            proof {
                lemma_char_index_unique(self.chars@, pos - 1);
            }
            Some(pos - 1)
        } else {
            proof {
                if is_boundary(self.chars@, off as int) {
                    let k = char_index(self.chars@, off as int);
                    assert(self.offsets[k] == off);
                    if k < pos - 1 {
                        lemma_byte_offset_increases(self.chars@, k, pos - 1);
                    }
                }
            }
            None
        }
    }
}

/// The encoding of a concatenation is as long as the two encodings together.
pub proof fn lemma_byte_len_concat(a: Seq<char>, b: Seq<char>)
    ensures
        byte_len(a + b) == byte_len(a) + byte_len(b),
    decreases b.len(),
{
    if b.len() == 0 {
        assert(a + b =~= a);
    } else {
        assert((a + b).drop_last() =~= a + b.drop_last());
        assert((a + b).last() == b.last());
        lemma_byte_len_concat(a, b.drop_last());
    }
}

/// A text of ASCII characters takes one byte per character.
pub proof fn lemma_byte_len_ascii(s: Seq<char>)
    requires
        forall|i: int| 0 <= i < s.len() ==> (#[trigger] s[i]) as u32 <= 0x7F,
    ensures
        byte_len(s) == s.len(),
    decreases s.len(),
{
    if s.len() > 0 {
        lemma_byte_len_ascii(s.drop_last());
    }
}

/// The number of leading characters of `s` whose UTF-8 form fits in `limit`
/// bytes.
pub open spec fn fitting(s: Seq<char>, limit: int) -> nat
    decreases s.len(),
{
    if s.len() == 0 || utf8_width(s[0]) > limit {
        0
    } else {
        1 + fitting(s.skip(1), limit - utf8_width(s[0]))
    }
}

/// The fitting prefix is a prefix, and it fits.
pub proof fn lemma_fitting_fits(s: Seq<char>, limit: int)
    requires
        limit >= 0,
    ensures
        fitting(s, limit) <= s.len(),
        byte_len(s.take(fitting(s, limit) as int)) <= limit,
    decreases s.len(),
{
    if s.len() == 0 || utf8_width(s[0]) > limit {
        assert(s.take(0) =~= Seq::<char>::empty());
    } else {
        let w = utf8_width(s[0]);
        lemma_fitting_fits(s.skip(1), limit - w);
        let k = fitting(s.skip(1), limit - w) as int;
        let first = seq![s[0]];
        assert(s.take(k + 1) =~= first + s.skip(1).take(k));
        lemma_byte_len_concat(first, s.skip(1).take(k));
        assert(first.drop_last() =~= Seq::<char>::empty());
        assert(first.last() == s[0]);
        assert(byte_len(first.drop_last()) == 0);
        assert(byte_len(first) == w);
    }
}

/// The number of leading characters of `s` whose UTF-8 form fits in `limit`
/// bytes, and the number of bytes they take.
pub fn count_fitting(s: &[char], limit: usize) -> (r: (usize, usize))
    ensures
        r.0 == fitting(s@, limit as int),
        r.0 <= s.len(),
        r.1 == byte_len(s@.take(r.0 as int)),
        r.1 <= limit,
        r.0 < s.len() ==> r.1 + utf8_width(s@[r.0 as int]) > limit,
{
    let mut k: usize = 0;
    let mut used: usize = 0;
    assert(s@.skip(0) =~= s@);
    assert(s@.take(0) =~= Seq::<char>::empty());
    while k < s.len() && utf8_width_of(s[k]) <= limit - used
        invariant
            k <= s.len(),
            used <= limit,
            used == byte_len(s@.take(k as int)),
            fitting(s@, limit as int) == k + fitting(s@.skip(k as int), limit - used),
        decreases s.len() - k,
    {
        proof {
            assert(s@.skip(k as int)[0] == s@[k as int]);
            assert(s@.skip(k as int).skip(1) =~= s@.skip(k + 1));
            assert(s@.take(k + 1).drop_last() =~= s@.take(k as int));
            assert(s@.take(k + 1).last() == s@[k as int]);
        }
        used = used + utf8_width_of(s[k]);
        k += 1;
    }
    proof {
        if k < s.len() {
            assert(s@.skip(k as int)[0] == s@[k as int]);
        }
    }
    (k, used)
}

/// The number of bytes in the UTF-8 form of `text`.
pub fn byte_length(text: &str) -> (n: usize)
    ensures
        n == byte_len(text@),
{
    let n = text.as_bytes().len();
    proof {
        lemma_byte_len_encoded(text@);
        assert(text.spec_bytes() == encode_utf8(text@));
    }
    n
}

} // verus!

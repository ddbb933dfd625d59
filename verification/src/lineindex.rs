//! Line numbers of byte offsets.

use vstd::prelude::*;
use crate::offsets::{
    ascending, byte_len, byte_offset, lemma_byte_offset_increases, upper_bound, TextIndex,
};

verus! {

/// The byte offsets at which the lines of `s` start: offset zero, and the
/// offset just after each line feed.
pub open spec fn line_starts(s: Seq<char>) -> Seq<int>
    decreases s.len(),
{
    if s.len() == 0 {
        seq![0int]
    } else if s.last() == '\n' {
        line_starts(s.drop_last()).push(byte_len(s) as int)
    } else {
        line_starts(s.drop_last())
    }
}

/// How many of `starts` are at or before `offset`.
pub open spec fn started_by(starts: Seq<int>, offset: int) -> nat
    decreases starts.len(),
{
    if starts.len() == 0 {
        0
    } else {
        started_by(starts.drop_last(), offset) + if starts.last() <= offset {
            1nat
        } else {
            0nat
        }
    }
}

/// The number, counted from one, of the line of `s` that holds byte offset
/// `offset`: the number of lines that start at or before it.
pub open spec fn line_number(s: Seq<char>, offset: int) -> nat {
    started_by(line_starts(s), offset)
}

/// In an ascending sequence the entries at or before `offset` are a prefix,
/// and their number is its length.
proof fn lemma_started_by_prefix(starts: Seq<int>, offset: int, pos: int)
    requires
        0 <= pos <= starts.len(),
        forall|i: int| 0 <= i < pos ==> starts[i] <= offset,
        forall|i: int| pos <= i < starts.len() ==> starts[i] > offset,
    ensures
        started_by(starts, offset) == pos,
    decreases starts.len(),
{
    if starts.len() > 0 {
        let init = starts.drop_last();
        if pos == starts.len() {
            lemma_started_by_prefix(init, offset, pos - 1);
        } else {
            lemma_started_by_prefix(init, offset, pos);
        }
    }
}

/// The line starts of a text, ready for looking up the line of an offset.
pub struct LineIndex {
    starts: Vec<usize>,
}

impl LineIndex {
    #[verifier::type_invariant]
    spec fn ordered(self) -> bool {
        ascending(self.starts@)
    }

    /// The byte offsets of the line starts, in order.
    pub closed spec fn starts(&self) -> Seq<int> {
        Seq::new(self.starts@.len(), |i: int| self.starts@[i] as int)
    }

    /// Collects the line starts of an indexed text.
    pub fn from_index(index: &TextIndex) -> (r: Self)
        requires
            index.wf(),
        ensures
            r.starts() == line_starts(index.chars@),
    {
        let mut starts: Vec<usize> = Vec::new();
        starts.push(0);
        let ghost s = index.chars@;
        let mut k: usize = 0;
        assert(s.take(0) =~= Seq::<char>::empty());
        assert(Seq::new(starts@.len(), |i: int| starts@[i] as int) =~= line_starts(s.take(0)));
        while k < index.chars.len()
            invariant
                k <= index.chars.len(),
                index.wf(),
                s == index.chars@,
                starts.len() >= 1,
                Seq::new(starts@.len(), |i: int| starts@[i] as int) == line_starts(s.take(k as int)),
                forall|i: int, j: int| 0 <= i <= j < starts.len() ==> starts@[i] <= starts@[j],
                forall|i: int| 0 <= i < starts.len() ==> starts@[i] <= byte_offset(s, k as int),
            decreases index.chars.len() - k,
        {
            proof {
                assert(s.take(k + 1).drop_last() =~= s.take(k as int));
                assert(s.take(k + 1).last() == s[k as int]);
                lemma_byte_offset_increases(s, k as int, k + 1);
            }
            if index.chars[k] == '\n' {
                let ghost before = Seq::new(starts@.len(), |i: int| starts@[i] as int);
                starts.push(index.offsets[k + 1]);
                assert(Seq::new(starts@.len(), |i: int| starts@[i] as int) =~= before.push(
                    byte_len(s.take(k + 1)) as int,
                ));
            }
            k += 1;
        }
        assert(s.take(index.chars.len() as int) =~= s);
        LineIndex { starts }
    }

    /// Collects the line starts of `text`.
    pub fn new(text: &str) -> (r: Self)
        ensures
            r.starts() == line_starts(text@),
    {
        let index = TextIndex::new(text);
        LineIndex::from_index(&index)
    }

    /// The number, counted from one, of the line that holds byte offset
    /// `offset`.
    pub fn line_at(&self, offset: usize) -> (line: usize)
        ensures
            line == started_by(self.starts(), offset as int),
    {
        proof {
            use_type_invariant(self);
        }
        let pos = upper_bound(self.starts.as_slice(), offset);
        proof {
            lemma_started_by_prefix(self.starts(), offset as int, pos as int);
        }
        pos
    }
}

} // verus!

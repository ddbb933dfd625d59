//! Splitting a text into lines.

use vstd::prelude::*;

verus! {

/// The character sequences held by a vector of character vectors.
pub open spec fn rows(v: Seq<Vec<char>>) -> Seq<Seq<char>> {
    Seq::new(v.len(), |i: int| v[i]@)
}

/// The character sequences held by a vector of strings.
pub open spec fn texts(v: Seq<String>) -> Seq<Seq<char>> {
    Seq::new(v.len(), |i: int| v[i]@)
}

/// The pieces of `s` cut after each line feed. Every piece but the last ends
/// with its line feed, no piece is empty, and the pieces joined give `s` back.
/// The text is read from the left, one character at a time: a character joins
/// the last piece unless that piece is closed by a line feed.
pub open spec fn chunks(s: Seq<char>) -> Seq<Seq<char>>
    decreases s.len(),
{
    if s.len() == 0 {
        Seq::empty()
    } else {
        let before = chunks(s.drop_last());
        if before.len() > 0 && before.last().len() > 0 && before.last().last() != '\n' {
            before.drop_last().push(before.last().push(s.last()))
        } else {
            before.push(seq![s.last()])
        }
    }
}

/// A chunk without its line terminator: a final line feed is dropped, and a
/// carriage return just before it too.
pub open spec fn line_of_chunk(c: Seq<char>) -> Seq<char> {
    if c.len() > 0 && c.last() == '\n' {
        let d = c.drop_last();
        if d.len() > 0 && d.last() == '\r' {
            d.drop_last()
        } else {
            d
        }
    } else {
        c
    }
}

/// The lines of `s`, without their terminators (LF or CRLF). A final
/// terminator ends the last line and starts no new one.
pub open spec fn lines(s: Seq<char>) -> Seq<Seq<char>> {
    Seq::new(chunks(s).len(), |i: int| line_of_chunk(chunks(s)[i]))
}

/// Cuts `s` after each line feed.
pub fn split_chunks(s: &[char]) -> (out: Vec<Vec<char>>)
    ensures
        rows(out@) == chunks(s@),
{
    let mut done: Vec<Vec<char>> = Vec::new();
    let mut cur: Vec<char> = Vec::new();
    let mut i: usize = 0;
    assert(rows(done@) =~= Seq::<Seq<char>>::empty());
    while i < s.len()
        invariant
            i <= s.len(),
            cur.len() > 0 ==> cur@.last() != '\n',
            done.len() > 0 ==> done@.last().len() > 0 && done@.last()@.last() == '\n',
            chunks(s@.take(i as int)) == if cur.len() > 0 {
                rows(done@).push(cur@)
            } else {
                rows(done@)
            },
        decreases s.len() - i,
    {
        let ch = s[i];
        let ghost old_done = done@;
        let ghost old_cur = cur@;
        proof {
            let t = s@.take(i + 1);
            assert(t.drop_last() == s@.take(i as int));
            assert(t.last() == ch);
            let before = chunks(s@.take(i as int));
            if cur.len() > 0 {
                assert(before.last() == cur@);
                assert(before.drop_last() =~= rows(done@));
                assert(chunks(t) == rows(old_done).push(old_cur.push(ch)));
            } else {
                if done.len() > 0 {
                    assert(before.last() == done@.last()@);
                }
                assert(old_cur.push(ch) =~= seq![ch]);
                assert(chunks(t) == rows(old_done).push(old_cur.push(ch)));
            }
        }
        cur.push(ch);
        if ch == '\n' {
            done.push(cur);
            cur = Vec::new();
            assert(rows(done@) =~= rows(old_done).push(old_cur.push(ch)));
        }
        i += 1;
    }
    assert(s@.take(s.len() as int) == s@);
    if cur.len() > 0 {
        let ghost old_done = done@;
        let ghost old_cur = cur@;
        done.push(cur);
        assert(rows(done@) =~= rows(old_done).push(old_cur));
    }
    done
}

/// The line held by a chunk.
pub fn strip_terminator(chunk: &[char]) -> (out: Vec<char>)
    ensures
        out@ == line_of_chunk(chunk@),
{
    let n = chunk.len();
    let mut end: usize = n;
    if n > 0 && chunk[n - 1] == '\n' {
        end = n - 1;
        if end > 0 && chunk[end - 1] == '\r' {
            end = end - 1;
        }
    }
    let out = crate::text::copy_range(chunk, 0, end);
    proof {
        if n > 0 && chunk@.last() == '\n' {
            let d = chunk@.drop_last();
            assert(d == chunk@.subrange(0, n - 1));
            if d.len() > 0 && d.last() == '\r' {
                assert(d.drop_last() == chunk@.subrange(0, n - 2));
            }
        } else {
            assert(chunk@.subrange(0, n as int) == chunk@);
        }
    }
    out
}

/// The lines of `s`.
pub fn split_lines(s: &[char]) -> (out: Vec<Vec<char>>)
    ensures
        rows(out@) == lines(s@),
{
    let pieces = split_chunks(s);
    let mut out: Vec<Vec<char>> = Vec::new();
    let mut i: usize = 0;
    while i < pieces.len()
        invariant
            i <= pieces.len(),
            rows(pieces@) == chunks(s@),
            out.len() == i,
            forall|k: int| 0 <= k < i ==> out@[k]@ == line_of_chunk(chunks(s@)[k]),
        decreases pieces.len() - i,
    {
        assert(rows(pieces@)[i as int] == pieces@[i as int]@);
        let line = strip_terminator(pieces[i].as_slice());
        out.push(line);
        i += 1;
    }
    assert(rows(pieces@).len() == pieces.len());
    assert(rows(out@) =~= lines(s@));
    out
}

} // verus!

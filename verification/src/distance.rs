//! Levenshtein edit distance over Unicode code points, with its laws.

use vstd::prelude::*;
use crate::text::chars_of;

verus! {

/// The smaller of two naturals.
pub open spec fn min2(x: nat, y: nat) -> nat {
    if x <= y {
        x
    } else {
        y
    }
}

/// The cost of turning `x` into `y` by substitution: nothing when they agree.
pub open spec fn substitution_cost(x: char, y: char) -> nat {
    if x == y {
        0
    } else {
        1
    }
}

/// The least number of single-character insertions, deletions and
/// substitutions that turn `a` into `b`.
pub open spec fn edit_distance(a: Seq<char>, b: Seq<char>) -> nat
    decreases a.len() + b.len(),
{
    if a.len() == 0 {
        b.len()
    } else if b.len() == 0 {
        a.len()
    } else {
        min2(
            1 + min2(edit_distance(a.drop_last(), b), edit_distance(a, b.drop_last())),
            edit_distance(a.drop_last(), b.drop_last()) + substitution_cost(a.last(), b.last()),
        )
    }
}

/// The distance never exceeds the length of the longer sequence.
pub proof fn lemma_edit_distance_bound(a: Seq<char>, b: Seq<char>)
    ensures
        edit_distance(a, b) <= a.len() || edit_distance(a, b) <= b.len(),
        a.len() == b.len() ==> edit_distance(a, b) <= a.len(),
        edit_distance(a, b) <= a.len() + b.len(),
    decreases a.len() + b.len(),
{
    if a.len() > 0 && b.len() > 0 {
        lemma_edit_distance_bound(a.drop_last(), b.drop_last());
    }
}

/// The distance from a sequence to itself is zero.
pub proof fn lemma_edit_distance_reflexive(a: Seq<char>)
    ensures
        edit_distance(a, a) == 0,
    decreases a.len(),
{
    if a.len() > 0 {
        lemma_edit_distance_reflexive(a.drop_last());
    }
}

/// The distance is symmetric in its two arguments.
pub proof fn lemma_edit_distance_symmetric(a: Seq<char>, b: Seq<char>)
    ensures
        edit_distance(a, b) == edit_distance(b, a),
    decreases a.len() + b.len(),
{
    if a.len() > 0 && b.len() > 0 {
        lemma_edit_distance_symmetric(a.drop_last(), b);
        lemma_edit_distance_symmetric(a, b.drop_last());
        lemma_edit_distance_symmetric(a.drop_last(), b.drop_last());
    }
}

/// The distance is at least the difference of the two lengths.
pub proof fn lemma_edit_distance_lower_bound(a: Seq<char>, b: Seq<char>)
    ensures
        a.len() <= edit_distance(a, b) + b.len(),
        b.len() <= edit_distance(a, b) + a.len(),
    decreases a.len() + b.len(),
{
    if a.len() > 0 && b.len() > 0 {
        lemma_edit_distance_lower_bound(a.drop_last(), b);
        lemma_edit_distance_lower_bound(a, b.drop_last());
        lemma_edit_distance_lower_bound(a.drop_last(), b.drop_last());
    }
}

/// The triangle inequality: going from `a` to `c` directly never costs more
/// than going through `b`.
pub proof fn lemma_edit_distance_triangle(a: Seq<char>, b: Seq<char>, c: Seq<char>)
    ensures
        edit_distance(a, c) <= edit_distance(a, b) + edit_distance(b, c),
    decreases a.len() + b.len() + c.len(),
{
    if a.len() == 0 || c.len() == 0 {
        lemma_edit_distance_lower_bound(a, b);
        lemma_edit_distance_lower_bound(b, c);
    } else if b.len() == 0 {
        lemma_edit_distance_bound(a, c);
    } else {
        lemma_edit_distance_triangle(a.drop_last(), b, c);
        lemma_edit_distance_triangle(a, b, c.drop_last());
        lemma_edit_distance_triangle(a, b.drop_last(), c);
        lemma_edit_distance_triangle(a, b.drop_last(), c.drop_last());
        lemma_edit_distance_triangle(a.drop_last(), b.drop_last(), c);
        lemma_edit_distance_triangle(a.drop_last(), b.drop_last(), c.drop_last());
    }
}

/// One cell of the dynamic-programming table in terms of its three
/// neighbours.
proof fn lemma_edit_distance_cell(a: Seq<char>, b: Seq<char>, i: int, j: int)
    requires
        0 <= i < a.len(),
        0 <= j < b.len(),
    ensures
        edit_distance(a.take(i + 1), b.take(j + 1)) == min2(
            1 + min2(
                edit_distance(a.take(i), b.take(j + 1)),
                edit_distance(a.take(i + 1), b.take(j)),
            ),
            edit_distance(a.take(i), b.take(j)) + substitution_cost(a[i], b[j]),
        ),
{
    assert(a.take(i + 1).drop_last() == a.take(i));
    assert(b.take(j + 1).drop_last() == b.take(j));
    assert(a.take(i + 1).last() == a[i]);
    assert(b.take(j + 1).last() == b[j]);
}

/// The Levenshtein distance between the code points of `a` and of `b`.
pub fn levenshtein(a: &str, b: &str) -> (r: usize)
    ensures
        r == edit_distance(a@, b@),
{
    let a_chars = chars_of(a);
    let b_chars = chars_of(b);
    levenshtein_chars(a_chars.as_slice(), b_chars.as_slice())
}

/// The Levenshtein distance between two character sequences.
pub fn levenshtein_chars(a: &[char], b: &[char]) -> (r: usize)
    ensures
        r == edit_distance(a@, b@),
{
    if a.len() == 0 {
        return b.len();
    }
    if b.len() == 0 {
        return a.len();
    }
    let n: usize = b.len();
    let mut previous: Vec<usize> = Vec::new();
    let mut current: Vec<usize> = Vec::new();
    let mut k: usize = 0;
    while k < n
        invariant
            k <= n,
            n == b.len(),
            previous.len() == k,
            current.len() == k,
            forall|j: int| 0 <= j < k ==> previous[j] == edit_distance(a@.take(0), b@.take(j)),
        decreases n - k,
    {
        previous.push(k);
        current.push(0);
        k += 1;
    }
    previous.push(n);
    current.push(0);

    let mut i: usize = 0;
    while i < a.len()
        invariant
            i <= a.len(),
            n == b.len(),
            n > 0,
            previous.len() == n + 1,
            current.len() == n + 1,
            forall|j: int|
                0 <= j <= n ==> previous[j] == edit_distance(a@.take(i as int), b@.take(j)),
        decreases a.len() - i,
    {
        let ca = a[i];
        current.set(0, i + 1);
        let mut j: usize = 0;
        while j < n
            invariant
                j <= n,
                i < a.len(),
                n == b.len(),
                ca == a@[i as int],
                previous.len() == n + 1,
                current.len() == n + 1,
                forall|m: int|
                    0 <= m <= n ==> previous[m] == edit_distance(a@.take(i as int), b@.take(m)),
                forall|m: int|
                    0 <= m <= j ==> current[m] == edit_distance(a@.take(i + 1), b@.take(m)),
            decreases n - j,
        {
            let cb = b[j];
            let substitution_cost: usize = if ca == cb {
                0
            } else {
                1
            };
            proof {
                lemma_edit_distance_cell(a@, b@, i as int, j as int);
                lemma_edit_distance_bound(a@.take(i as int), b@.take(j as int));
                lemma_edit_distance_bound(a@.take(i as int), b@.take(j + 1));
            }
            let removal: usize = if current[j] < previous[j + 1] {
                current[j]
            } else {
                previous[j + 1]
            };
            let edited: usize = previous[j] + substitution_cost;
            let best: usize = if removal + 1 < edited {
                removal + 1
            } else {
                edited
            };
            current.set(j + 1, best);
            j += 1;
        }
        std::mem::swap(&mut previous, &mut current);
        i += 1;
    }
    assert(a@.take(a.len() as int) == a@);
    assert(b@.take(n as int) == b@);
    previous[n]
}

} // verus!

//! Edit distance between strings.

use vstd::prelude::*;

use crate::text;

verus! {

pub open spec fn least(a: nat, b: nat) -> nat {
    if a <= b {
        a
    } else {
        b
    }
}

/// What it costs to put one character in the place of another.
pub open spec fn swap_cost(x: char, y: char) -> nat {
    if x == y {
        0
    } else {
        1
    }
}

/// The least number of single-character insertions, deletions and replacements that turn `a`
/// into `b`.
pub open spec fn edits(a: Seq<char>, b: Seq<char>) -> nat
    decreases a.len() + b.len(),
{
    if a.len() == 0 {
        b.len()
    } else if b.len() == 0 {
        a.len()
    } else {
        least(
            least(edits(a.drop_last(), b) + 1, edits(a, b.drop_last()) + 1),
            edits(a.drop_last(), b.drop_last()) + swap_cost(a.last(), b.last()),
        )
    }
}

/// No more edits are needed than the longer of the two texts has characters, and no fewer than
/// their lengths differ by.
pub proof fn edits_bounds(a: Seq<char>, b: Seq<char>)
    ensures
        edits(a, b) <= a.len() || edits(a, b) <= b.len(),
        edits(a, b) >= a.len() - b.len(),
        edits(a, b) >= b.len() - a.len(),
    decreases a.len() + b.len(),
{
    if a.len() > 0 && b.len() > 0 {
        edits_bounds(a.drop_last(), b);
        edits_bounds(a, b.drop_last());
        edits_bounds(a.drop_last(), b.drop_last());
    }
}

/// The distance is the same in both directions.
pub proof fn edits_symmetric(a: Seq<char>, b: Seq<char>)
    ensures
        edits(a, b) == edits(b, a),
    decreases a.len() + b.len(),
{
    if a.len() > 0 && b.len() > 0 {
        edits_symmetric(a.drop_last(), b);
        edits_symmetric(a, b.drop_last());
        edits_symmetric(a.drop_last(), b.drop_last());
    }
}

/// The distance is zero between equal texts and only between those.
pub proof fn edits_zero(a: Seq<char>, b: Seq<char>)
    ensures
        edits(a, b) == 0 <==> a == b,
    decreases a.len() + b.len(),
{
    if a.len() > 0 && b.len() > 0 {
        edits_zero(a.drop_last(), b.drop_last());
        if edits(a, b) == 0 {
            assert(a =~= a.drop_last().push(a.last()));
            assert(b =~= b.drop_last().push(b.last()));
        }
    } else if a.len() == 0 && b.len() == 0 {
        assert(a =~= b);
    }
}

/// The way over a third text is no shorter.
pub proof fn edits_triangle(a: Seq<char>, b: Seq<char>, c: Seq<char>)
    ensures
        edits(a, c) <= edits(a, b) + edits(b, c),
    decreases a.len() + b.len() + c.len(),
{
    edits_bounds(a, b);
    edits_bounds(b, c);
    if a.len() == 0 || b.len() == 0 || c.len() == 0 {
        edits_bounds(a, c);
    } else {
        edits_triangle(a.drop_last(), b, c);
        edits_triangle(a, b, c.drop_last());
        edits_triangle(a, b.drop_last(), c);
        edits_triangle(a, b.drop_last(), c.drop_last());
        edits_triangle(a.drop_last(), b.drop_last(), c);
        edits_triangle(a.drop_last(), b.drop_last(), c.drop_last());
    }
}

fn one_more(n: usize) -> (r: usize)
    ensures
        n < usize::MAX ==> r == n + 1,
        n == usize::MAX ==> r == n,
{
    if n < usize::MAX {
        n + 1
    } else {
        n
    }
}

fn smaller(a: usize, b: usize) -> (r: usize)
    ensures
        r == least(a as nat, b as nat),
{
    if a <= b {
        a
    } else {
        b
    }
}

/// The Levenshtein distance between two strings.
pub fn levenshtein(a: &str, b: &str) -> (r: usize)
    ensures
        r == edits(a@, b@),
{
    let a: Vec<char> = text::chars_of(a);
    let b: Vec<char> = text::chars_of(b);
    let mut prev: Vec<usize> = Vec::new();
    prev.push(0);
    let mut k: usize = 0;
    while k < b.len()
        invariant
            k <= b@.len(),
            prev@.len() == k + 1,
            forall|j: int| 0 <= j <= k ==> prev@[j] == j,
        decreases b@.len() - k,
    {
        prev.push(k + 1);
        k = k + 1;
    }
    assert forall|j: int| 0 <= j <= b@.len() implies prev@[j] == edits(
        a@.take(0),
        #[trigger] b@.take(j),
    ) by {}
    let mut i: usize = 0;
    while i < a.len()
        invariant
            i <= a@.len(),
            prev@.len() == b@.len() + 1,
            forall|j: int|
                0 <= j <= b@.len() ==> prev@[j] == edits(a@.take(i as int), #[trigger] b@.take(j)),
        decreases a@.len() - i,
    {
        let mut cur: Vec<usize> = Vec::new();
        cur.push(i + 1);
        let mut j: usize = 0;
        let ghost up = a@.take(i + 1);
        assert(up.drop_last() =~= a@.take(i as int));
        assert(b@.take(0).len() == 0);
        while j < b.len()
            invariant
                i < a@.len(),
                j <= b@.len(),
                prev@.len() == b@.len() + 1,
                cur@.len() == j + 1,
                up == a@.take(i + 1),
                up.drop_last() == a@.take(i as int),
                forall|m: int|
                    0 <= m <= b@.len() ==> prev@[m] == edits(
                        a@.take(i as int),
                        #[trigger] b@.take(m),
                    ),
                forall|m: int| 0 <= m <= j ==> cur@[m] == edits(up, #[trigger] b@.take(m)),
            decreases b@.len() - j,
        {
            let ghost left = b@.take(j + 1);
            assert(left.drop_last() =~= b@.take(j as int));
            assert(prev@[j + 1] == edits(up.drop_last(), b@.take(j + 1)));
            assert(cur@[j as int] == edits(up, b@.take(j as int)));
            assert(prev@[j as int] == edits(up.drop_last(), b@.take(j as int)));
            proof {
                edits_bounds(up, left);
                assert(up.len() <= a.len() && left.len() <= b.len());
                assert(up.last() == a@[i as int] && left.last() == b@[j as int]);
            }
            let swapped: usize = if a[i] == b[j] {
                prev[j]
            } else {
                one_more(prev[j])
            };
            let best: usize = smaller(
                smaller(one_more(prev[j + 1]), one_more(cur[j])),
                swapped,
            );
            cur.push(best);
            assert(best == edits(up, left));
            j = j + 1;
        }
        prev = cur;
        i = i + 1;
    }
    assert(a@.take(a@.len() as int) =~= a@);
    assert(b@.take(b@.len() as int) =~= b@);
    prev[b.len()]
}

// ---------------------------------------------------------------------------
// Laws
// ---------------------------------------------------------------------------

/// One character put in, taken out or replaced, wherever it stands, is one edit at most.
pub proof fn one_change_is_one_edit(a: Seq<char>, b: Seq<char>, x: char, y: char)
    ensures
        edits(a + b, a + seq![x] + b) == 1,
        edits(a + seq![x] + b, a + b) == 1,
        x != y ==> edits(a + seq![x] + b, a + seq![y] + b) == 1,
    decreases b.len(),
{
    edits_zero(a + b, a + seq![x] + b);
    edits_zero(a + seq![x] + b, a + b);
    edits_zero(a + seq![x] + b, a + seq![y] + b);
    assert((a + b).len() + 1 == (a + seq![x] + b).len());
    if x != y {
        assert((a + seq![x] + b)[a.len() as int] == x);
        assert((a + seq![y] + b)[a.len() as int] == y);
    }
    if b.len() == 0 {
        assert(a + b =~= a);
        assert(a + seq![x] + b =~= a.push(x));
        assert(a + seq![y] + b =~= a.push(y));
        assert(a.push(x).drop_last() =~= a);
        assert(a.push(y).drop_last() =~= a);
        edits_zero(a, a);
        if a.len() == 0 {
            reveal_with_fuel(edits, 2);
        }
    } else {
        let d = b.drop_last();
        one_change_is_one_edit(a, d, x, y);
        assert((a + b).drop_last() =~= a + d);
        assert((a + seq![x] + b).drop_last() =~= a + seq![x] + d);
        assert((a + seq![y] + b).drop_last() =~= a + seq![y] + d);
        assert((a + b).last() == b.last() && (a + seq![x] + b).last() == b.last() && (a + seq![y] + b).last()
            == b.last());
    }
}

} // verus!

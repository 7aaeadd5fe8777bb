use vstd::prelude::*;

use crate::text::{chars_of, lemma_utf8_len_at_least, utf8_len, utf8_len_exec};

verus! {

pub open spec fn min3(a: nat, b: nat, c: nat) -> nat {
    if a <= b && a <= c {
        a
    } else if b <= c {
        b
    } else {
        c
    }
}

/// The edit distance that the usual one-row dynamic programme computes:
/// equal last characters cost nothing, otherwise one more than the cheapest
/// of replacing, deleting or inserting.
pub open spec fn lev(a: Seq<char>, b: Seq<char>) -> nat
    decreases a.len() + b.len(),
{
    if a.len() == 0 {
        b.len()
    } else if b.len() == 0 {
        a.len()
    } else if a.last() == b.last() {
        lev(a.drop_last(), b.drop_last())
    } else {
        1 + min3(
            lev(a.drop_last(), b.drop_last()),
            lev(a.drop_last(), b),
            lev(a, b.drop_last()),
        )
    }
}

pub proof fn lemma_lev_bound(a: Seq<char>, b: Seq<char>)
    ensures
        lev(a, b) <= a.len() + b.len(),
    decreases a.len() + b.len(),
{
    if a.len() > 0 && b.len() > 0 {
        lemma_lev_bound(a.drop_last(), b.drop_last());
    }
}

/// Edit distance between two strings of characters.
pub fn levenshtein_chars(left: &Vec<char>, right: &Vec<char>) -> (r: usize)
    requires
        left.len() + right.len() < usize::MAX,
    ensures
        r == lev(left@, right@),
{
    let m = right.len();
    let mut costs: Vec<usize> = Vec::new();
    costs.push(0);
    let mut j: usize = 0;
    while j < m
        invariant
            j <= m == right.len(),
            costs.len() == j + 1,
            forall|k: int| 0 <= k <= j ==> costs@[k] == k,
        decreases m - j,
    {
        costs.push(j + 1);
        j = j + 1;
    }
    assert forall|k: int| 0 <= k <= m implies costs@[k] == lev(left@.take(0), right@.take(k)) by {
        assert(left@.take(0).len() == 0);
    }
    let mut i: usize = 0;
    while i < left.len()
        invariant
            i <= left.len(),
            m == right.len(),
            left.len() + right.len() < usize::MAX,
            costs.len() == m + 1,
            forall|k: int| 0 <= k <= m ==> costs@[k] == lev(left@.take(i as int), right@.take(k)),
        decreases left.len() - i,
    {
        let lc = left[i];
        let mut previous: usize = i;
        proof {
            assert(right@.take(0).len() == 0);
        }
        costs.set(0, i + 1);
        assert(left@.take(i + 1).len() == i + 1);
        let mut j: usize = 0;
        while j < m
            invariant
                i < left.len(),
                j <= m == right.len(),
                left.len() + right.len() < usize::MAX,
                lc == left@[i as int],
                costs.len() == m + 1,
                forall|k: int|
                    0 <= k <= j ==> costs@[k] == lev(left@.take(i + 1), right@.take(k)),
                forall|k: int|
                    j < k <= m ==> costs@[k] == lev(left@.take(i as int), right@.take(k)),
                previous == lev(left@.take(i as int), right@.take(j as int)),
            decreases m - j,
        {
            let ghost a = left@.take(i + 1);
            let ghost b = right@.take(j + 1);
            assert(a.drop_last() =~= left@.take(i as int));
            assert(b.drop_last() =~= right@.take(j as int));
            assert(a.last() == lc);
            assert(b.last() == right@[j as int]);
            let current = costs[j + 1];
            let left_cost = costs[j];
            proof {
                lemma_lev_bound(left@.take(i as int), right@.take(j as int));
            }
            let next = if lc == right[j] {
                previous
            } else {
                let mut best = previous;
                if current < best {
                    best = current;
                }
                if left_cost < best {
                    best = left_cost;
                }
                1 + best
            };
            assert(next == lev(a, b));
            costs.set(j + 1, next);
            previous = current;
            j = j + 1;
        }
        i = i + 1;
    }
    assert(left@.take(left.len() as int) =~= left@);
    assert(right@.take(m as int) =~= right@);
    costs[m]
}

/// What the one-row programme gives when its row is as long as `right` in
/// bytes and it steps through the characters: the edit distance where
/// `right` is ASCII, and otherwise the length of `right` in bytes, as the
/// last cell of the row is never reached.
pub open spec fn lev_bytes(a: Seq<char>, b: Seq<char>) -> nat {
    if utf8_len(b) == b.len() {
        lev(a, b)
    } else {
        utf8_len(b)
    }
}

pub fn levenshtein(left: &str, right: &str) -> (r: usize)
    requires
        left@.len() + right@.len() < usize::MAX,
        utf8_len(right@) <= isize::MAX,
    ensures
        r == lev_bytes(left@, right@),
{
    let l = chars_of(left);
    let rc = chars_of(right);
    let bytes = utf8_len_exec(&rc);
    proof {
        lemma_utf8_len_at_least(right@);
    }
    if bytes != rc.len() as u128 {
        return bytes as usize;
    }
    levenshtein_chars(&l, &rc)
}

} // verus!

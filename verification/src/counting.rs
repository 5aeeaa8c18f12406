//! Counting the items of a sequence that satisfy a predicate.

use vstd::prelude::*;

verus! {

/// How many of the first `n` items satisfy `p`.
pub open spec fn count_where<T>(s: Seq<T>, p: spec_fn(T) -> bool, n: int) -> nat
    decreases n,
{
    if n <= 0 {
        0
    } else if p(s[n - 1]) {
        count_where(s, p, n - 1) + 1
    } else {
        count_where(s, p, n - 1)
    }
}

/// An item that is put into a sequence counts once if it satisfies `p`, and
/// the others count as before.
pub proof fn lemma_count_insert<T>(s: Seq<T>, at: int, x: T, p: spec_fn(T) -> bool, n: int)
    requires
        0 <= at <= s.len(),
        0 <= n <= s.len() + 1,
    ensures
        count_where(s.insert(at, x), p, n) == if n <= at {
            count_where(s, p, n)
        } else {
            count_where(s, p, n - 1) + if p(x) {
                1nat
            } else {
                0nat
            }
        },
    decreases n,
{
    if n > 0 {
        lemma_count_insert(s, at, x, p, n - 1);
        let longer = s.insert(at, x);
        if n - 1 < at {
            assert(longer[n - 1] == s[n - 1]);
        } else if n - 1 == at {
            assert(longer[n - 1] == x);
        } else {
            assert(longer[n - 1] == s[n - 2]);
        }
    }
}

/// Where two items satisfy `p`, at least two are counted.
pub proof fn lemma_count_two<T>(s: Seq<T>, p: spec_fn(T) -> bool, i: int, j: int, n: int)
    requires
        0 <= i < j < n <= s.len(),
        p(s[i]),
        p(s[j]),
    ensures
        count_where(s, p, n) >= 2,
        count_where(s, p, j) >= 1,
    decreases n,
{
    if n - 1 > j {
        lemma_count_two(s, p, i, j, n - 1);
    } else {
        lemma_count_one(s, p, i, j);
    }
}

/// Where an item satisfies `p`, at least one is counted.
pub proof fn lemma_count_one<T>(s: Seq<T>, p: spec_fn(T) -> bool, i: int, n: int)
    requires
        0 <= i < n <= s.len(),
        p(s[i]),
    ensures
        count_where(s, p, n) >= 1,
    decreases n,
{
    if n - 1 > i {
        lemma_count_one(s, p, i, n - 1);
    }
}

/// Where at least two items are counted, two items satisfy `p`.
pub proof fn lemma_two_counted<T>(s: Seq<T>, p: spec_fn(T) -> bool, n: int)
    requires
        0 <= n <= s.len(),
        count_where(s, p, n) >= 2,
    ensures
        exists|i: int, j: int| 0 <= i < j < n && p(#[trigger] s[i]) && p(#[trigger] s[j]),
    decreases n,
{
    if p(s[n - 1]) {
        lemma_one_counted(s, p, n - 1);
        let i = choose|i: int| 0 <= i < n - 1 && p(#[trigger] s[i]);
        assert(0 <= i < n - 1 < n && p(s[i]) && p(s[n - 1]));
    } else {
        lemma_two_counted(s, p, n - 1);
        let (i, j) = choose|i: int, j: int|
            0 <= i < j < n - 1 && p(#[trigger] s[i]) && p(#[trigger] s[j]);
        assert(0 <= i < j < n && p(s[i]) && p(s[j]));
    }
}

/// Where at least one item is counted, an item satisfies `p`.
pub proof fn lemma_one_counted<T>(s: Seq<T>, p: spec_fn(T) -> bool, n: int)
    requires
        0 <= n <= s.len(),
        count_where(s, p, n) >= 1,
    ensures
        exists|i: int| 0 <= i < n && p(#[trigger] s[i]),
    decreases n,
{
    if p(s[n - 1]) {
        assert(0 <= n - 1 < n && p(s[n - 1]));
    } else {
        lemma_one_counted(s, p, n - 1);
        let i = choose|i: int| 0 <= i < n - 1 && p(#[trigger] s[i]);
        assert(0 <= i < n && p(s[i]));
    }
}

/// Sequences that agree count alike.
pub proof fn lemma_count_agrees<T>(a: Seq<T>, b: Seq<T>, p: spec_fn(T) -> bool, n: int)
    requires
        0 <= n <= a.len(),
        n <= b.len(),
        forall|i: int| 0 <= i < n ==> a[i] == b[i],
    ensures
        count_where(a, p, n) == count_where(b, p, n),
    decreases n,
{
    if n > 0 {
        lemma_count_agrees(a, b, p, n - 1);
    }
}

/// None is counted exactly where no item satisfies `p`.
pub proof fn lemma_none_counted<T>(s: Seq<T>, p: spec_fn(T) -> bool, n: int)
    requires
        0 <= n <= s.len(),
    ensures
        count_where(s, p, n) == 0 <==> forall|i: int| 0 <= i < n ==> !p(#[trigger] s[i]),
    decreases n,
{
    if n > 0 {
        lemma_none_counted(s, p, n - 1);
        if p(s[n - 1]) {
            assert(0 <= n - 1 < n && p(s[n - 1]));
        }
    }
}

} // verus!

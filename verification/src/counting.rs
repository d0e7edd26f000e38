//! Counting indices of a sequence that satisfy a predicate, with the
//! arithmetic facts the ranking proofs lean on.

use vstd::prelude::*;

verus! {

/// Number of indices `i` with `0 <= i < n` that satisfy `p`.
pub open spec fn count_where(n: int, p: spec_fn(int) -> bool) -> nat
    decreases n,
{
    if n <= 0 {
        0
    } else {
        count_where(n - 1, p) + (if p(n - 1) {
            1nat
        } else {
            0nat
        })
    }
}

pub proof fn lemma_count_mono(n: int, p: spec_fn(int) -> bool, q: spec_fn(int) -> bool)
    requires
        forall|i: int| 0 <= i < n && #[trigger] p(i) ==> q(i),
    ensures
        count_where(n, p) <= count_where(n, q),
    decreases n,
{
    if n > 0 {
        lemma_count_mono(n - 1, p, q);
    }
}

pub proof fn lemma_count_zero(n: int, p: spec_fn(int) -> bool)
    requires
        forall|i: int| 0 <= i < n ==> !(#[trigger] p(i)),
    ensures
        count_where(n, p) == 0,
    decreases n,
{
    if n > 0 {
        lemma_count_zero(n - 1, p);
    }
}

pub proof fn lemma_count_pos(n: int, p: spec_fn(int) -> bool, k: int)
    requires
        0 <= k < n,
        p(k),
    ensures
        count_where(n, p) >= 1,
    decreases n,
{
    if k < n - 1 {
        lemma_count_pos(n - 1, p, k);
    }
}

pub proof fn lemma_count_witness(n: int, p: spec_fn(int) -> bool)
    requires
        count_where(n, p) > 0,
    ensures
        exists|i: int| 0 <= i < n && #[trigger] p(i),
    decreases n,
{
    if n > 0 {
        if p(n - 1) {
            assert(0 <= n - 1 < n && p(n - 1));
        } else {
            lemma_count_witness(n - 1, p);
        }
    }
}

pub proof fn lemma_count_eq(n: int, p: spec_fn(int) -> bool, q: spec_fn(int) -> bool)
    requires
        forall|i: int| 0 <= i < n ==> (#[trigger] p(i) <==> #[trigger] q(i)),
    ensures
        count_where(n, p) == count_where(n, q),
    decreases n,
{
    if n > 0 {
        lemma_count_eq(n - 1, p, q);
    }
}

pub proof fn lemma_count_prefix_le(m: int, n: int, p: spec_fn(int) -> bool)
    requires
        0 <= m <= n,
    ensures
        count_where(m, p) <= count_where(n, p),
    decreases n,
{
    if m < n {
        lemma_count_prefix_le(m, n - 1, p);
    }
}

/// Two predicates that cover the domain and never overlap count up to
/// exactly the domain's size.
pub proof fn lemma_count_partition(n: int, p: spec_fn(int) -> bool, q: spec_fn(int) -> bool)
    requires
        n >= 0,
        forall|i: int| 0 <= i < n ==> (#[trigger] p(i) || #[trigger] q(i)),
        forall|i: int| 0 <= i < n ==> !(#[trigger] p(i) && q(i)),
    ensures
        count_where(n, p) + count_where(n, q) == n,
    decreases n,
{
    if n > 0 {
        lemma_count_partition(n - 1, p, q);
    }
}

/// Counting over a domain with one index cut out: if `q` agrees with `p`
/// below `w` and with `p` shifted by one from `w` on, then `p`'s count
/// over the larger domain exceeds `q`'s by `p(w)`.
pub proof fn lemma_count_shift(n: int, p: spec_fn(int) -> bool, q: spec_fn(int) -> bool, w: int)
    requires
        0 <= w <= n,
        forall|i: int| 0 <= i < w ==> (#[trigger] q(i) <==> p(i)),
        forall|i: int| w <= i < n ==> (#[trigger] q(i) <==> p(i + 1)),
    ensures
        count_where(n + 1, p) == count_where(n, q) + (if p(w) {
            1nat
        } else {
            0nat
        }),
    decreases n - w,
{
    if n == w {
        lemma_count_eq(w, p, q);
    } else {
        lemma_count_shift(n - 1, p, q, w);
        assert(q(n - 1) <==> p(n));
    }
}

/// Removing one satisfying index from consideration lowers the count by one.
pub proof fn lemma_count_without(n: int, p: spec_fn(int) -> bool, k: int)
    requires
        0 <= k < n,
        p(k),
    ensures
        count_where(n, p) == count_where(n, |i: int| p(i) && i != k) + 1,
    decreases n,
{
    let q = |i: int| p(i) && i != k;
    if k == n - 1 {
        lemma_count_eq(n - 1, p, q);
    } else {
        lemma_count_without(n - 1, p, k);
    }
}

} // verus!

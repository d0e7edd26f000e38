//! Sums and sorting of small integer samples, for the statistics quizzes.

use vstd::prelude::*;

verus! {

/// The sum of the sample.
pub open spec fn sum_of(s: Seq<i32>) -> int
    decreases s.len(),
{
    if s.len() == 0 {
        0
    } else {
        sum_of(s.drop_last()) + s.last()
    }
}

/// Sum a sample exactly.
pub fn sum_i32(v: &Vec<i32>) -> (r: i128)
    ensures
        r == sum_of(v@),
{
    let n = v.len();
    let mut acc: i128 = 0;
    let mut i: usize = 0;
    while i < n
        invariant
            n == v@.len(),
            0 <= i <= n,
            acc == sum_of(v@.subrange(0, i as int)),
            -0x80000000_i128 * i <= acc <= 0x80000000_i128 * i,
        decreases n - i,
    {
        acc = acc + v[i] as i128;
        proof {
            let cur = v@.subrange(0, i as int + 1);
            assert(cur.drop_last() =~= v@.subrange(0, i as int));
            assert(cur.last() == v@[i as int]);
        }
        i = i + 1;
    }
    proof {
        assert(v@.subrange(0, n as int) =~= v@);
    }
    acc
}

/// Insert `x` before the first element not smaller than it.
pub open spec fn insert_sorted(x: i32, s: Seq<i32>) -> Seq<i32>
    decreases s.len(),
{
    if s.len() == 0 {
        seq![x]
    } else if x <= s[0] {
        seq![x] + s
    } else {
        seq![s[0]] + insert_sorted(x, s.drop_first())
    }
}

/// The sample in ascending order.
pub open spec fn sort_spec(s: Seq<i32>) -> Seq<i32>
    decreases s.len(),
{
    if s.len() == 0 {
        s
    } else {
        insert_sorted(s[0], sort_spec(s.drop_first()))
    }
}

proof fn lemma_insert_sorted_at(x: i32, s: Seq<i32>, p: int)
    requires
        0 <= p <= s.len(),
        forall|j: int| 0 <= j < p ==> s[j] < x,
        p < s.len() ==> x <= s[p],
    ensures
        insert_sorted(x, s) == s.subrange(0, p) + seq![x] + s.subrange(p, s.len() as int),
    decreases p,
{
    if s.len() == 0 {
        assert(insert_sorted(x, s) =~= s.subrange(0, p) + seq![x] + s.subrange(
            p,
            s.len() as int,
        ));
    } else if p == 0 {
        assert(insert_sorted(x, s) =~= s.subrange(0, p) + seq![x] + s.subrange(
            p,
            s.len() as int,
        ));
    } else {
        let t = s.drop_first();
        assert(forall|j: int| 0 <= j < p - 1 ==> t[j] < x);
        lemma_insert_sorted_at(x, t, p - 1);
        assert(seq![s[0]] + (t.subrange(0, p - 1) + seq![x] + t.subrange(p - 1, t.len() as int))
            =~= s.subrange(0, p) + seq![x] + s.subrange(p, s.len() as int));
    }
}

fn insert_i32(x: i32, s: Vec<i32>) -> (r: Vec<i32>)
    ensures
        r@ == insert_sorted(x, s@),
{
    let ghost orig = s@;
    let n = s.len();
    let mut p: usize = 0;
    while p < n && s[p] < x
        invariant
            n == s@.len(),
            s@ == orig,
            0 <= p <= n,
            forall|j: int| 0 <= j < p ==> s@[j] < x,
        decreases n - p,
    {
        p = p + 1;
    }
    proof {
        lemma_insert_sorted_at(x, orig, p as int);
    }
    let mut r = s;
    r.insert(p, x);
    proof {
        assert(r@ =~= orig.subrange(0, p as int) + seq![x] + orig.subrange(
            p as int,
            orig.len() as int,
        ));
    }
    r
}

/// Sort the tail of the sample from position `i` on.
fn sort_from(v: &Vec<i32>, i: usize) -> (r: Vec<i32>)
    requires
        i <= v@.len(),
    ensures
        r@ == sort_spec(v@.subrange(i as int, v@.len() as int)),
    decreases v@.len() - i,
{
    let n = v.len();
    if i == n {
        let r: Vec<i32> = Vec::new();
        proof {
            assert(v@.subrange(n as int, n as int) =~= Seq::<i32>::empty());
            assert(r@ =~= sort_spec(v@.subrange(i as int, v@.len() as int)));
        }
        r
    } else {
        let rest = sort_from(v, i + 1);
        let x = v[i];
        proof {
            let tail = v@.subrange(i as int, n as int);
            assert(tail.drop_first() =~= v@.subrange(i as int + 1, n as int));
            assert(tail[0] == v@[i as int]);
        }
        insert_i32(x, rest)
    }
}

/// The sample sorted ascending.
pub fn sorted_i32(v: &Vec<i32>) -> (r: Vec<i32>)
    ensures
        r@ == sort_spec(v@),
{
    let r = sort_from(v, 0);
    proof {
        assert(v@.subrange(0, v@.len() as int) =~= v@);
    }
    r
}

/// Sorting keeps the sample's length.
pub proof fn lemma_sort_len(s: Seq<i32>)
    ensures
        sort_spec(s).len() == s.len(),
    decreases s.len(),
{
    if s.len() > 0 {
        lemma_sort_len(s.drop_first());
        lemma_insert_len(s[0], sort_spec(s.drop_first()));
    }
}

proof fn lemma_insert_len(x: i32, s: Seq<i32>)
    ensures
        insert_sorted(x, s).len() == s.len() + 1,
    decreases s.len(),
{
    if s.len() > 0 && !(x <= s[0]) {
        lemma_insert_len(x, s.drop_first());
    }
}

/// Euclid's greatest common divisor, as fraction simplification uses it.
pub open spec fn gcd_spec(a: int, b: int) -> int
    decreases b,
    when b >= 0
{
    if b == 0 {
        a
    } else {
        gcd_spec(b, a % b)
    }
}

pub fn gcd(a: i32, b: i32) -> (r: i32)
    requires
        a >= 0,
        b >= 0,
    ensures
        r == gcd_spec(a as int, b as int),
    decreases b,
{
    if b == 0 {
        a
    } else {
        gcd(b, a % b)
    }
}

/// The textual form of a sample, as a bracketed, comma-separated list.
pub open spec fn list_items(s: Seq<i32>) -> Seq<char>
    decreases s.len(),
{
    if s.len() == 0 {
        Seq::<char>::empty()
    } else if s.len() == 1 {
        crate::text::int_string(s[0] as int)
    } else {
        list_items(s.drop_last()) + ", "@ + crate::text::int_string(s.last() as int)
    }
}

pub open spec fn list_string(s: Seq<i32>) -> Seq<char> {
    "["@ + list_items(s) + "]"@
}

/// Render a sample the way a debug listing does: `[1, 2, 3]`.
pub fn i32_list_str(v: &Vec<i32>) -> (r: String)
    ensures
        r@ == list_string(v@),
{
    let mut s = String::from_str("[");
    proof {
        reveal_strlit("[");
        reveal_strlit("]");
        reveal_strlit(", ");
        assert(v@.subrange(0, 0) =~= Seq::<i32>::empty());
        assert(s@ =~= "["@ + list_items(v@.subrange(0, 0)));
    }
    let n = v.len();
    let mut i: usize = 0;
    while i < n
        invariant
            n == v@.len(),
            0 <= i <= n,
            s@ == "["@ + list_items(v@.subrange(0, i as int)),
        decreases n - i,
    {
        if i > 0 {
            let sep = String::from_str(", ");
            s.append(sep.as_str());
        }
        let item = crate::text::i64_string(v[i] as i64);
        s.append(item.as_str());
        proof {
            let pre = v@.subrange(0, i as int);
            let cur = v@.subrange(0, i as int + 1);
            assert(cur.drop_last() =~= pre);
            assert(cur.last() == v@[i as int]);
            assert(s@ =~= "["@ + list_items(cur));
        }
        i = i + 1;
    }
    let tail = String::from_str("]");
    s.append(tail.as_str());
    proof {
        assert(v@.subrange(0, n as int) =~= v@);
        assert(s@ =~= list_string(v@));
    }
    s
}

/// A sample of non-negatives sums to a non-negative.
pub proof fn lemma_sum_nonneg(s: Seq<i32>)
    requires
        forall|i: int| 0 <= i < s.len() ==> #[trigger] s[i] >= 0,
    ensures
        sum_of(s) >= 0,
    decreases s.len(),
{
    if s.len() > 0 {
        lemma_sum_nonneg(s.drop_last());
    }
}

/// The sum of a sample is bounded by its size.
pub proof fn lemma_sum_bound(s: Seq<i32>)
    ensures
        -0x80000000 * s.len() <= sum_of(s) <= 0x80000000 * s.len(),
    decreases s.len(),
{
    if s.len() > 0 {
        lemma_sum_bound(s.drop_last());
    }
}

} // verus!

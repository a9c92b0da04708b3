//! Sums and maxima of counters.

use vstd::prelude::*;

verus! {

/// The sum of a list.
pub open spec fn sum_of(s: Seq<u64>) -> int
    decreases s.len(),
{
    if s.len() == 0 {
        0
    } else {
        sum_of(s.drop_last()) + s.last()
    }
}

/// The greatest number of a list, or 0.
pub open spec fn max_in(s: Seq<u64>) -> u64
    decreases s.len(),
{
    if s.len() == 0 {
        0
    } else if s.last() > max_in(s.drop_last()) {
        s.last()
    } else {
        max_in(s.drop_last())
    }
}

/// A sum is no negative number.
pub proof fn lemma_sum_nonneg(s: Seq<u64>)
    ensures
        sum_of(s) >= 0,
    decreases s.len(),
{
    if s.len() > 0 {
        lemma_sum_nonneg(s.drop_last());
    }
}

/// One more number.
pub proof fn lemma_sum_step(s: Seq<u64>, n: int)
    requires
        0 <= n < s.len(),
    ensures
        sum_of(s.take(n + 1)) == sum_of(s.take(n)) + s[n],
{
    assert(s.take(n + 1).drop_last() =~= s.take(n));
}

/// Longer prefixes have no lesser sum.
pub proof fn lemma_sum_monotone(s: Seq<u64>, a: int, b: int)
    requires
        0 <= a <= b <= s.len(),
    ensures
        0 <= sum_of(s.take(a)) <= sum_of(s.take(b)) <= sum_of(s),
    decreases s.len() - a,
{
    lemma_sum_nonneg(s.take(a));
    if a < s.len() {
        lemma_sum_step(s, a);
        if a < b {
            lemma_sum_monotone(s, a + 1, b);
        } else {
            lemma_sum_monotone(s, a + 1, a + 1);
        }
    } else {
        assert(s.take(a) =~= s);
    }
}

/// A number that grows lets the sum grow as much.
pub proof fn lemma_sum_update(s: Seq<u64>, i: int, v: u64)
    requires
        0 <= i < s.len(),
    ensures
        sum_of(s.update(i, v)) == sum_of(s) - s[i] + v,
    decreases s.len(),
{
    let t = s.update(i, v);
    if i == s.len() - 1 {
        assert(t.drop_last() =~= s.drop_last());
    } else {
        lemma_sum_update(s.drop_last(), i, v);
        assert(t.drop_last() =~= s.drop_last().update(i, v));
    }
}

/// The sum of zeros.
pub proof fn lemma_sum_zeros(s: Seq<u64>)
    requires
        forall|i: int| 0 <= i < s.len() ==> #[trigger] s[i] == 0,
    ensures
        sum_of(s) == 0,
    decreases s.len(),
{
    if s.len() > 0 {
        let t = s.drop_last();
        assert forall|i: int| 0 <= i < t.len() implies #[trigger] t[i] == 0 by {
            assert(s[i] == 0);
        }
        lemma_sum_zeros(t);
    }
}

/// Every number is at most the sum.
pub proof fn lemma_sum_bounds(s: Seq<u64>, i: int)
    requires
        0 <= i < s.len(),
    ensures
        s[i] <= sum_of(s),
{
    lemma_sum_monotone(s, i + 1, i + 1);
    lemma_sum_monotone(s, i, i);
    lemma_sum_step(s, i);
}

/// The greatest number of a list is one of them, and no other is greater; of
/// an empty list it is 0.
pub proof fn law_maximum_is_the_greatest(s: Seq<u64>, i: int)
    ensures
        0 <= i < s.len() ==> s[i] <= max_in(s),
        s.len() > 0 ==> s.contains(max_in(s)),
        s.len() == 0 ==> max_in(s) == 0,
    decreases s.len(),
{
    if s.len() > 0 {
        let front = s.drop_last();
        law_maximum_is_the_greatest(front, i);
        if front.len() > 0 {
            let k = choose|k: int| 0 <= k < front.len() && front[k] == max_in(front);
            assert(s[k] == max_in(front));
        }
        assert(s[s.len() - 1] == s.last());
    }
}

/// A sum is what each number adds, in whatever order they stand.
pub proof fn law_sums_add_up(s: Seq<u64>, t: Seq<u64>, x: u64)
    ensures
        sum_of(s + t) == sum_of(s) + sum_of(t),
        sum_of(s.push(x)) == sum_of(s) + x,
        sum_of(Seq::empty()) == 0,
    decreases t.len(),
{
    assert(s.push(x).drop_last() =~= s);
    if t.len() > 0 {
        law_sums_add_up(s, t.drop_last(), x);
        assert((s + t).drop_last() =~= s + t.drop_last());
    } else {
        assert(s + t =~= s);
    }
}

} // verus!

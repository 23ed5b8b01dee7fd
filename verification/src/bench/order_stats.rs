//! Minimum, maximum and median of measured durations, taken in nanoseconds.

use vstd::prelude::*;
use vstd::relations::{sorted_by, total_ordering};

verus! {

/// The median of an odd number of durations is the middle one; that of an
/// even number is the mean of the two middle ones, saturated to `u64`
/// nanoseconds.
#[derive(Debug, Clone, Copy, PartialEq, Eq, Structural)]
pub enum Median {
    /// The middle duration, in nanoseconds.
    Middle(u128),
    /// The mean of the two middle durations, in nanoseconds.
    Average(u64),
}

/// Order statistics of a non-empty list of durations, in nanoseconds.
#[derive(Debug, Clone, Copy, PartialEq, Eq, Structural)]
pub struct OrderStatistics {
    pub min: u128,
    pub max: u128,
    pub median: Median,
}

/// The order on nanosecond counts.
pub open spec fn nanos_order() -> spec_fn(u128, u128) -> bool {
    |x: u128, y: u128| x <= y
}

/// `s` in ascending order.
pub open spec fn ascending(s: Seq<u128>) -> Seq<u128> {
    s.sort_by(nanos_order())
}

/// The median of the ascending sequence `t`.
pub open spec fn median_of(t: Seq<u128>) -> Median {
    let n = t.len() as int;
    if n % 2 == 1 {
        Median::Middle(t[n / 2])
    } else {
        let avg = (t[n / 2 - 1] + t[n / 2]) / 2;
        Median::Average(if avg > u64::MAX { u64::MAX } else { avg as u64 })
    }
}

/// The order statistics of `s`, read off its ascending order.
pub open spec fn order_statistics_of(s: Seq<u128>) -> OrderStatistics {
    let t = ascending(s);
    OrderStatistics { min: t[0], max: t[t.len() - 1], median: median_of(t) }
}

/// `s[lo..hi]` is in ascending order.
spec fn ascending_between(s: Seq<u128>, lo: int, hi: int) -> bool {
    forall|p: int, q: int| lo <= p < q < hi ==> s[p] <= s[q]
}

proof fn lemma_nanos_order_total()
    ensures
        total_ordering(nanos_order()),
{
}

proof fn lemma_swap_keeps_multiset(s: Seq<u128>, i: int)
    requires
        0 <= i,
        i + 1 < s.len(),
    ensures
        s.update(i, s[i + 1]).update(i + 1, s[i]).to_multiset() =~= s.to_multiset(),
{
    broadcast use vstd::seq_lib::group_to_multiset_ensures;
    broadcast use vstd::multiset::group_multiset_axioms;
    broadcast use vstd::seq_lib::to_multiset_update;

    let a = s[i];
    let b = s[i + 1];
    let s1 = s.update(i, b);
    assert(s1.to_multiset() == s.to_multiset().insert(b).remove(a));
    assert(s1[i + 1] == b);
    let s2 = s1.update(i + 1, a);
    assert(s2.to_multiset() == s1.to_multiset().insert(a).remove(b));
    assert(s2.to_multiset() =~= s.to_multiset());
}

/// Sorts `v` in ascending order.
fn sort_ascending(v: &mut Vec<u128>)
    ensures
        final(v)@.to_multiset() == old(v)@.to_multiset(),
        final(v)@.len() == old(v)@.len(),
        sorted_by(final(v)@, nanos_order()),
{
    let n = v.len();
    let mut i: usize = 1;
    if n == 0 {
        return;
    }
    while i < n
        invariant
            1 <= i <= n,
            n == v@.len(),
            v@.to_multiset() == old(v)@.to_multiset(),
            v@.len() == old(v)@.len(),
            ascending_between(v@, 0, i as int),
        decreases n - i,
    {
        let mut j: usize = i;
        while j > 0 && v[j - 1] > v[j]
            invariant
                0 <= j <= i < n,
                n == v@.len(),
                v@.to_multiset() == old(v)@.to_multiset(),
                v@.len() == old(v)@.len(),
                ascending_between(v@, 0, j as int),
                ascending_between(v@, j as int, i + 1),
                forall|p: int, q: int| 0 <= p < j && j < q <= i ==> v@[p] <= v@[q],
            decreases j,
        {
            let a = v[j - 1];
            let b = v[j];
            proof {
                lemma_swap_keeps_multiset(v@, j - 1);
            }
            v.set(j - 1, b);
            v.set(j, a);
            j = j - 1;
        }
        i = i + 1;
    }
    proof {
        assert(sorted_by(v@, nanos_order()));
    }
}

/// Read against any ascending arrangement `a` of the samples `s`: the
/// minimum is `a`'s first sample and lies at or below every sample, the
/// maximum is its last and lies at or above every sample; the median of an
/// odd count is the middle sample, that of an even count the mean of the two
/// middle samples (saturated to `u64`), so that, where it is not saturated,
/// the lower half of `a` lies at or below it and the upper half at or above.
pub proof fn lemma_order_statistics_of_sorted(s: Seq<u128>, a: Seq<u128>)
    requires
        s.len() > 0,
        a.to_multiset() == s.to_multiset(),
        forall|p: int, q: int| 0 <= p < q < a.len() ==> a[p] <= a[q],
    ensures
        ({
            let r = order_statistics_of(s);
            let n = s.len() as int;
            &&& a.len() == n
            &&& r.min == a[0]
            &&& r.max == a[n - 1]
            &&& forall|i: int| 0 <= i < n ==> r.min <= #[trigger] s[i] <= r.max
            &&& n % 2 == 1 ==> r.median == Median::Middle(a[n / 2])
            &&& n % 2 == 0 ==> {
                let mean = (a[n / 2 - 1] + a[n / 2]) / 2;
                &&& r.median == Median::Average(if mean > u64::MAX { u64::MAX } else { mean as u64 })
                &&& mean <= u64::MAX ==> forall|i: int| 0 <= i < n ==> (i < n / 2 ==> #[trigger] a[i] <= mean) && (i >= n / 2
                    ==> a[i] >= mean)
            }
        }),
{
    broadcast use vstd::seq_lib::group_to_multiset_ensures;

    lemma_nanos_order_total();
    s.lemma_sort_by_ensures(nanos_order());
    assert(sorted_by(a, nanos_order()));
    vstd::seq_lib::lemma_sorted_unique(a, ascending(s), nanos_order());
    vstd::seq_lib::to_multiset_len(a);
    vstd::seq_lib::to_multiset_len(s);
    let n = s.len() as int;
    assert forall|i: int| 0 <= i < n implies a[0] <= #[trigger] s[i] <= a[n - 1] by {
        assert(s.contains(s[i]));
        assert(s.to_multiset().count(s[i]) > 0);
        assert(a.contains(s[i]));
        let k = choose|k: int| 0 <= k < a.len() && a[k] == s[i];
        if k > 0 {
            assert(a[0] <= a[k]);
        }
        if k < n - 1 {
            assert(a[k] <= a[n - 1]);
        }
    }
    if n % 2 == 0 {
        let mean = (a[n / 2 - 1] + a[n / 2]) / 2;
        assert forall|i: int| 0 <= i < n implies (i < n / 2 ==> #[trigger] a[i] <= mean) && (i >= n / 2 ==> a[i] >= mean) by {
            if i < n / 2 - 1 {
                assert(a[i] <= a[n / 2 - 1]);
            }
            if i > n / 2 {
                assert(a[n / 2] <= a[i]);
            }
            assert(a[n / 2 - 1] <= a[n / 2]);
        }
    }
}

/// The shortest, the longest and the median of the durations `nanos`
/// (in nanoseconds), as their ascending order gives them. Statistics are
/// taken of at least one and at most `u32::MAX` durations.
pub fn order_statistics(nanos: &Vec<u128>) -> (r: OrderStatistics)
    requires
        0 < nanos@.len() <= u32::MAX,
    ensures
        r == order_statistics_of(nanos@),
{
    let mut v = nanos.clone();
    proof {
        assert(v@ == nanos@);
    }
    sort_ascending(&mut v);
    proof {
        lemma_nanos_order_total();
        nanos@.lemma_sort_by_ensures(nanos_order());
        vstd::seq_lib::lemma_sorted_unique(v@, ascending(nanos@), nanos_order());
    }
    let n = v.len();
    let median = if n % 2 == 1 {
        Median::Middle(v[n / 2])
    } else {
        let a = v[n / 2 - 1];
        let b = v[n / 2];
        let avg = a / 2 + b / 2 + (a % 2 + b % 2) / 2;
        proof {
            assert(avg == (a + b) / 2) by (nonlinear_arith)
                requires
                    avg == a / 2 + b / 2 + (a % 2 + b % 2) / 2,
            ;
        }
        Median::Average(if avg > u64::MAX as u128 { u64::MAX } else { avg as u64 })
    };
    OrderStatistics { min: v[0], max: v[n - 1], median }
}

} // verus!

//! Round-trip latency figures of a benchmark run: the extremes, the mean and the
//! percentiles of the measured latencies.

use vstd::prelude::*;
use std::time::Duration;
use crate::session::{as_nanos, duration_nanos};

verus! {

broadcast use vstd::seq_lib::group_to_multiset_ensures;

/// Latency figures, in nanoseconds.
#[derive(Debug, Clone, Copy, PartialEq, Eq, Structural)]
pub struct LatencyReport {
    pub min: u64,
    pub mean: u64,
    pub p50: u64,
    pub p90: u64,
    pub p99: u64,
    pub p999: u64,
    pub max: u64,
}

/// `s` is in ascending order.
pub open spec fn is_ascending(s: Seq<u64>) -> bool {
    forall|i: int, j: int| 0 <= i <= j < s.len() ==> s[i] <= s[j]
}

/// The sum of the values of `s`.
pub open spec fn sum_of(s: Seq<u64>) -> int
    decreases s.len(),
{
    if s.len() == 0 {
        0
    } else {
        sum_of(s.drop_last()) + s.last()
    }
}

/// Each duration in nanoseconds, cut to 64 bits.
pub open spec fn nanos_of(ds: Seq<Duration>) -> Seq<u64> {
    ds.map_values(|d: Duration| duration_nanos(d) as u64)
}

/// The figures of the latencies `sorted` (ascending, not empty) whose sum is `total`:
/// the first and last, the mean rounded down, and the values at a half, nine tenths,
/// 99 and 99.9 hundredths of the way through (index rounded down; the last value where
/// 99.9 hundredths would run past it).
pub open spec fn report_of(sorted: Seq<u64>, total: int) -> LatencyReport {
    let len = sorted.len() as int;
    let i999 = if len * 999 / 1000 < len - 1 {
        len * 999 / 1000
    } else {
        len - 1
    };
    LatencyReport {
        min: sorted[0],
        mean: (total / len) as u64,
        p50: sorted[len * 50 / 100],
        p90: sorted[len * 90 / 100],
        p99: sorted[len * 99 / 100],
        p999: sorted[i999],
        max: sorted[len - 1],
    }
}

/// Swapping two neighbours keeps the values of a sequence.
proof fn lemma_swap_keeps_values(s: Seq<u64>, j: int)
    requires
        1 <= j < s.len(),
    ensures
        s.update(j - 1, s[j]).update(j, s[j - 1]).to_multiset() == s.to_multiset(),
{
    broadcast use vstd::multiset::group_multiset_axioms;

    let s1 = s.update(j - 1, s[j]);
    assert(s1[j] == s[j]);
    assert(s1.update(j, s[j - 1]).to_multiset() =~= s.to_multiset());
}

/// Sort `v` in ascending order, keeping its values.
pub fn sort_ascending(v: &mut Vec<u64>)
    ensures
        is_ascending(final(v)@),
        final(v)@.to_multiset() == old(v)@.to_multiset(),
{
    let n = v.len();
    let mut i: usize = 1;
    while i < n
        invariant
            n == v@.len(),
            1 <= i,
            i < n ==> forall|a: int, b: int| 0 <= a <= b < i ==> v@[a] <= v@[b],
            i >= n ==> is_ascending(v@),
            v@.to_multiset() == old(v)@.to_multiset(),
        decreases n - i,
    {
        let mut j: usize = i;
        while j > 0 && v[j - 1] > v[j]
            invariant
                n == v@.len(),
                0 <= j <= i < n,
                forall|a: int, b: int| 0 <= a <= b <= i && a != j && b != j ==> v@[a] <= v@[b],
                forall|k: int| j < k <= i ==> v@[j as int] < v@[k],
                v@.to_multiset() == old(v)@.to_multiset(),
            decreases j,
        {
            let a = v[j - 1];
            let b = v[j];
            proof {
                lemma_swap_keeps_values(v@, j as int);
            }
            v.set(j - 1, b);
            v.set(j, a);
            j = j - 1;
        }
        assert forall|a: int, b: int| 0 <= a <= b <= i implies v@[a] <= v@[b] by {
            if a == j && b != j && j < b {
            } else if b == j && a != j && j > 0 {
                assert(v@[a] <= v@[j - 1]);
            }
        }
        i = i + 1;
    }
}

/// The latency figures of a run: `None` when nothing was measured.
pub fn latency_report(latencies: &[Duration]) -> (r: Option<LatencyReport>)
    requires
        latencies@.len() * 999 <= usize::MAX,
        sum_of(nanos_of(latencies@)) <= u64::MAX,
    ensures
        latencies@.len() == 0 ==> r is None,
        latencies@.len() > 0 ==> (r matches Some(rep) && exists|s: Seq<u64>|
            #![trigger report_of(s, sum_of(nanos_of(latencies@)))]
            is_ascending(s) && s.to_multiset() == nanos_of(latencies@).to_multiset() && rep == report_of(
                s,
                sum_of(nanos_of(latencies@)),
            )),
{
    let len = latencies.len();
    if len == 0 {
        return None;
    }
    let mut sorted: Vec<u64> = Vec::new();
    let mut total: u64 = 0;
    let mut i: usize = 0;
    while i < len
        invariant
            len == latencies@.len(),
            i <= len,
            sorted@ == nanos_of(latencies@).take(i as int),
            total == sum_of(sorted@),
            sum_of(nanos_of(latencies@)) <= u64::MAX,
        decreases len - i,
    {
        let ns = #[verifier::truncate] (as_nanos(&latencies[i]) as u64);
        proof {
            lemma_prefix_sum_at_most(nanos_of(latencies@), i as int + 1);
            assert(nanos_of(latencies@).take(i + 1).drop_last() =~= nanos_of(latencies@).take(i as int));
        }
        sorted.push(ns);
        total = total + ns;
        assert(sorted@ =~= nanos_of(latencies@).take(i + 1));
        i = i + 1;
    }
    assert(sorted@ =~= nanos_of(latencies@));
    let ghost unsorted = sorted@;
    sort_ascending(&mut sorted);
    assert(sorted@.len() == len) by {
        assert(sorted@.to_multiset().len() == unsorted.to_multiset().len());
    }
    let mean = total / (len as u64);
    let p999_at = if len * 999 / 1000 < len - 1 {
        len * 999 / 1000
    } else {
        len - 1
    };
    let rep = LatencyReport {
        min: sorted[0],
        mean,
        p50: sorted[len * 50 / 100],
        p90: sorted[len * 90 / 100],
        p99: sorted[len * 99 / 100],
        p999: sorted[p999_at],
        max: sorted[len - 1],
    };
    assert(rep == report_of(sorted@, sum_of(nanos_of(latencies@))));
    Some(rep)
}

/// The sum of a prefix of values is at most the sum of all of them.
proof fn lemma_prefix_sum_at_most(s: Seq<u64>, k: int)
    requires
        0 <= k <= s.len(),
    ensures
        sum_of(s.take(k)) <= sum_of(s),
    decreases s.len() - k,
{
    if k < s.len() {
        lemma_prefix_sum_at_most(s, k + 1);
        assert(s.take(k + 1).drop_last() =~= s.take(k));
    } else {
        assert(s.take(k) =~= s);
    }
}

} // verus!

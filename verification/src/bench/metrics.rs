//! Benchmark metrics: throughput and latency records, latency samples, and
//! allocation accounting.

use core::time::Duration;
use crate::text::{decimal, decimal_string};
use vstd::prelude::*;

verus! {

/// Cloning a `Duration` copies it (`Duration` is `Copy`).
pub assume_specification[ <core::time::Duration as Clone>::clone ](d: &Duration) -> (r: Duration)
    ensures
        r == *d,
;

/// Throughput metrics for a benchmark run.
#[derive(Debug, Clone)]
pub struct ThroughputMetrics {
    pub messages_per_second: u64,
    pub total_messages: u64,
    pub duration: Duration,
}

/// Latency metrics for a benchmark run.
#[derive(Debug, Clone)]
pub struct LatencyMetrics {
    pub p50: Duration,
    pub p95: Duration,
    pub p99: Duration,
    pub p999: Duration,
    pub min: Duration,
    pub max: Duration,
    pub mean: Duration,
}

/// Total nanoseconds in `d`, as `Duration::as_nanos` reports it.
pub uninterp spec fn duration_nanos(d: Duration) -> u128;

/// The duration of `nanos` nanoseconds, as `Duration::from_nanos` builds it.
pub uninterp spec fn nanos_duration(nanos: u64) -> Duration;

/// Whole nanoseconds in `d`.
///
/// Trusted: calls `Duration::as_nanos`, whose result depends on the
/// duration alone; it is named `duration_nanos`.
#[verifier::external_body]
fn as_nanos(d: &Duration) -> (r: u128)
    ensures
        r == duration_nanos(*d),
{
    d.as_nanos()
}

/// The duration of `nanos` nanoseconds.
///
/// Trusted: calls `Duration::from_nanos`, whose result depends on `nanos`
/// alone; it is named `nanos_duration`. As std documents, the duration
/// holds exactly `nanos` nanoseconds, so `as_nanos` gives `nanos` back.
#[verifier::external_body]
fn from_nanos(nanos: u64) -> (r: Duration)
    ensures
        r == nanos_duration(nanos),
        duration_nanos(r) == nanos as u128,
{
    Duration::from_nanos(nanos)
}

/// Sum of the nanoseconds of the samples.
pub open spec fn nanos_sum(samples: Seq<Duration>) -> int
    decreases samples.len(),
{
    if samples.len() == 0 {
        0
    } else {
        nanos_sum(samples.drop_last()) + duration_nanos(samples.last())
    }
}

/// Latency measurement meter: the recorded samples, in recording order.
pub struct LatencyMeter {
    samples: Vec<Duration>,
    sorted: bool,
}

impl LatencyMeter {
    /// The recorded samples.
    pub closed spec fn recorded(&self) -> Seq<Duration> {
        self.samples@
    }

    /// A meter with no samples.
    pub fn new() -> (m: Self)
        ensures
            m.recorded() == Seq::<Duration>::empty(),
    {
        LatencyMeter { samples: Vec::with_capacity(1000), sorted: false }
    }

    /// Records one latency sample.
    pub fn record(&mut self, duration: Duration)
        ensures
            final(self).recorded() == old(self).recorded().push(duration),
    {
        self.samples.push(duration);
        self.sorted = false;
    }

    /// The recorded samples, in recording order.
    pub fn samples(&self) -> (r: &Vec<Duration>)
        ensures
            r@ == self.recorded(),
    {
        &self.samples
    }

    /// Mean latency: zero with no samples, otherwise the integer mean of the
    /// samples' nanoseconds (truncated to 64 bits).
    pub fn mean(&self) -> (r: Duration)
        requires
            nanos_sum(self.recorded()) <= u128::MAX,
        ensures
            self.recorded().len() == 0 ==> r == nanos_duration(0),
            self.recorded().len() > 0 ==> r == nanos_duration((nanos_sum(self.recorded()) / self.recorded().len() as int) as u64),
            self.recorded().len() == 0 ==> duration_nanos(r) == 0,
            self.recorded().len() > 0 ==> duration_nanos(r) == ((nanos_sum(self.recorded()) / self.recorded().len() as int) as u64) as u128,
    {
        if self.samples.len() == 0 {
            return from_nanos(0);
        }
        let ghost s = self.samples@;
        let mut sum: u128 = 0;
        let mut i: usize = 0;
        while i < self.samples.len()
            invariant
                s == self.samples@,
                i <= s.len(),
                nanos_sum(s) <= u128::MAX,
                sum == nanos_sum(s.take(i as int)),
            decreases s.len() - i,
        {
            proof {
                assert(s.take(i + 1).drop_last() =~= s.take(i as int));
                lemma_nanos_sum_prefix(s, i + 1);
            }
            sum = sum + as_nanos(&self.samples[i]);
            i = i + 1;
        }
        proof {
            assert(s.take(i as int) =~= s);
        }
        let avg = sum / (self.samples.len() as u128);
        from_nanos(avg as u64)
    }
}

impl LatencyMeter {
    /// Mean latency as [`Self::mean`] computes it, or `None` when the sum of
    /// the samples' nanoseconds does not fit in a `u128`.
    pub fn checked_mean(&self) -> (r: Option<Duration>)
        ensures
            r is None <==> nanos_sum(self.recorded()) > u128::MAX,
            r is Some ==> (self.recorded().len() == 0 ==> r == Some(nanos_duration(0))),
            r is Some ==> (self.recorded().len() > 0 ==> r == Some(
                nanos_duration((nanos_sum(self.recorded()) / self.recorded().len() as int) as u64),
            )),
    {
        let ghost s = self.samples@;
        let mut sum: u128 = 0;
        let mut i: usize = 0;
        while i < self.samples.len()
            invariant
                s == self.samples@,
                i <= s.len(),
                sum == nanos_sum(s.take(i as int)),
            decreases s.len() - i,
        {
            proof {
                assert(s.take(i + 1).drop_last() =~= s.take(i as int));
            }
            match sum.checked_add(as_nanos(&self.samples[i])) {
                Some(next) => {
                    sum = next;
                },
                None => {
                    proof {
                        lemma_nanos_sum_prefix(s, i + 1);
                    }
                    return None;
                },
            }
            i = i + 1;
        }
        proof {
            assert(s.take(i as int) =~= s);
        }
        Some(self.mean())
    }
}

/// `d` has the fewest nanoseconds among `samples`.
pub open spec fn is_least(d: Duration, samples: Seq<Duration>) -> bool {
    &&& samples.contains(d)
    &&& forall|i: int| 0 <= i < samples.len() ==> duration_nanos(d) <= duration_nanos(#[trigger] samples[i])
}

/// `d` has the most nanoseconds among `samples`.
pub open spec fn is_greatest(d: Duration, samples: Seq<Duration>) -> bool {
    &&& samples.contains(d)
    &&& forall|i: int| 0 <= i < samples.len() ==> duration_nanos(#[trigger] samples[i]) <= duration_nanos(d)
}

impl LatencyMeter {
    /// The shortest and longest samples and the mean: zero durations for all
    /// three when nothing was recorded.
    pub fn extremes_and_mean(&self) -> (r: (Duration, Duration, Duration))
        requires
            nanos_sum(self.recorded()) <= u128::MAX,
        ensures
            self.recorded().len() == 0 ==> r == (nanos_duration(0), nanos_duration(0), nanos_duration(0)),
            self.recorded().len() > 0 ==> {
                &&& is_least(r.0, self.recorded())
                &&& is_greatest(r.1, self.recorded())
                &&& r.2 == nanos_duration((nanos_sum(self.recorded()) / self.recorded().len() as int) as u64)
            },
    {
        let mean = self.mean();
        if self.samples.len() == 0 {
            let zero = from_nanos(0);
            return (zero, zero, mean);
        }
        let ghost s = self.samples@;
        let mut lo = self.samples[0];
        let mut hi = self.samples[0];
        let mut lo_n = as_nanos(&lo);
        let mut hi_n = as_nanos(&hi);
        let mut i: usize = 1;
        while i < self.samples.len()
            invariant
                s == self.samples@,
                1 <= i <= s.len(),
                s.contains(lo),
                s.contains(hi),
                lo_n == duration_nanos(lo),
                hi_n == duration_nanos(hi),
                forall|j: int| 0 <= j < i ==> lo_n <= duration_nanos(#[trigger] s[j]),
                forall|j: int| 0 <= j < i ==> duration_nanos(#[trigger] s[j]) <= hi_n,
            decreases s.len() - i,
        {
            let d = self.samples[i];
            let n = as_nanos(&d);
            proof {
                assert(s[i as int] == d);
            }
            if n < lo_n {
                lo = d;
                lo_n = n;
            }
            if n > hi_n {
                hi = d;
                hi_n = n;
            }
            i = i + 1;
        }
        (lo, hi, mean)
    }
}

impl Default for LatencyMeter {
    fn default() -> (m: Self)
        ensures
            m.recorded() == Seq::<Duration>::empty(),
    {
        LatencyMeter::new()
    }
}

/// Sums of prefixes never exceed the sum of all samples.
proof fn lemma_nanos_sum_prefix(s: Seq<Duration>, k: int)
    requires
        0 <= k <= s.len(),
    ensures
        nanos_sum(s.take(k)) <= nanos_sum(s),
    decreases s.len() - k,
{
    if k < s.len() {
        lemma_nanos_sum_prefix(s, k + 1);
        assert(s.take(k + 1).drop_last() =~= s.take(k));
    } else {
        assert(s.take(k) =~= s);
    }
}

/// Allocation accounting for benchmarks: bytes allocated and deallocated
/// since the last reset, the peak of the allocated total, and the number of
/// allocations.
pub struct TrackingAllocator {
    allocated: usize,
    deallocated: usize,
    peak: usize,
    allocation_count: usize,
}

impl TrackingAllocator {
    pub closed spec fn allocated_total(&self) -> usize {
        self.allocated
    }

    pub closed spec fn deallocated_total(&self) -> usize {
        self.deallocated
    }

    pub closed spec fn peak_total(&self) -> usize {
        self.peak
    }

    /// The peak is never below the allocated total.
    #[verifier::type_invariant]
    spec fn peak_covers_allocated(&self) -> bool {
        self.peak >= self.allocated
    }

    pub closed spec fn count(&self) -> usize {
        self.allocation_count
    }

    /// An allocator record with nothing counted.
    pub fn new() -> (a: Self)
        ensures
            a.allocated_total() == 0,
            a.deallocated_total() == 0,
            a.peak_total() == 0,
            a.count() == 0,
    {
        TrackingAllocator { allocated: 0, deallocated: 0, peak: 0, allocation_count: 0 }
    }

    /// Bytes allocated since the last reset.
    pub fn allocated_bytes(&self) -> (r: usize)
        ensures
            r == self.allocated_total(),
    {
        self.allocated
    }

    /// Bytes deallocated since the last reset.
    pub fn deallocated_bytes(&self) -> (r: usize)
        ensures
            r == self.deallocated_total(),
    {
        self.deallocated
    }

    /// Highest allocated total seen since the last reset.
    pub fn peak_allocation(&self) -> (r: usize)
        ensures
            r == self.peak_total(),
            r >= self.allocated_total(),
    {
        proof {
            use_type_invariant(self);
        }
        self.peak
    }

    /// Number of allocations since the last reset.
    pub fn allocation_count(&self) -> (r: usize)
        ensures
            r == self.count(),
    {
        self.allocation_count
    }

    /// Records an allocation of `size` bytes: the allocated total grows by
    /// `size`, the count by one, and the peak follows the new total.
    pub fn record_allocation(&mut self, size: usize)
        requires
            old(self).allocated_total() + size <= usize::MAX,
        ensures
            final(self).allocated_total() == old(self).allocated_total() + size,
            final(self).count() == old(self).count().wrapping_add(1),
            final(self).peak_total() == (if old(self).allocated_total() + size > old(self).peak_total() {
                (old(self).allocated_total() + size) as usize
            } else {
                old(self).peak_total()
            }),
            final(self).deallocated_total() == old(self).deallocated_total(),
    {
        proof {
            use_type_invariant(&*self);
        }
        let current = self.allocated + size;
        if current > self.peak {
            self.peak = current;
        }
        self.allocated = current;
        self.allocation_count = self.allocation_count.wrapping_add(1);
    }

    /// Records a deallocation of `size` bytes (the total wraps on overflow).
    pub fn record_deallocation(&mut self, size: usize)
        ensures
            final(self).deallocated_total() == old(self).deallocated_total().wrapping_add(size),
            final(self).allocated_total() == old(self).allocated_total(),
            final(self).peak_total() == old(self).peak_total(),
            final(self).count() == old(self).count(),
    {
        proof {
            use_type_invariant(&*self);
        }
        self.deallocated = self.deallocated.wrapping_add(size);
    }

    /// Clears every counter.
    pub fn reset(&mut self)
        ensures
            final(self).allocated_total() == 0,
            final(self).deallocated_total() == 0,
            final(self).peak_total() == 0,
            final(self).count() == 0,
    {
        self.allocated = 0;
        self.deallocated = 0;
        self.peak = 0;
        self.allocation_count = 0;
    }

    /// Snapshot of the counters.
    pub fn snapshot(&self) -> (m: AllocationMetrics)
        ensures
            m.allocated == self.allocated_total(),
            m.deallocated == self.deallocated_total(),
            m.peak == self.peak_total(),
            m.count == self.count(),
    {
        AllocationMetrics {
            allocated: self.allocated,
            deallocated: self.deallocated,
            peak: self.peak,
            count: self.allocation_count,
        }
    }
}

impl Default for TrackingAllocator {
    fn default() -> (a: Self)
        ensures
            a.allocated_total() == 0,
            a.deallocated_total() == 0,
            a.peak_total() == 0,
            a.count() == 0,
    {
        TrackingAllocator::new()
    }
}

/// Snapshot of allocation metrics.
#[derive(Debug, Clone, Copy)]
pub struct AllocationMetrics {
    pub allocated: usize,
    pub deallocated: usize,
    pub peak: usize,
    pub count: usize,
}

/// The report `format_stats` renders for the given counters.
pub open spec fn stats_text(m: AllocationMetrics) -> Seq<char> {
    "📊 Allocation Stats:\nTotal allocated: "@ + decimal(m.allocated as nat) + " bytes\nTotal deallocated: "@
        + decimal(m.deallocated as nat) + " bytes\nPeak usage: "@ + decimal(m.peak as nat) + " bytes\nAllocation count: "@
        + decimal(m.count as nat) + "\nStatus: "@ + (if m.count == 0 {
        "✅ Zero allocations"@
    } else {
        "⚠️ Allocations detected"@
    })
}

impl AllocationMetrics {
    /// Whether no allocation was counted.
    pub fn is_zero_alloc(&self) -> (r: bool)
        ensures
            r == (self.count == 0),
    {
        self.count == 0
    }

    /// Human-readable report of the counters.
    pub fn format_stats(&self) -> (r: String)
        ensures
            r@ == stats_text(*self),
    {
        let mut s = String::from_str("📊 Allocation Stats:\nTotal allocated: ");
        s.append(decimal_string(self.allocated as u64).as_str());
        s.append(" bytes\nTotal deallocated: ");
        s.append(decimal_string(self.deallocated as u64).as_str());
        s.append(" bytes\nPeak usage: ");
        s.append(decimal_string(self.peak as u64).as_str());
        s.append(" bytes\nAllocation count: ");
        s.append(decimal_string(self.count as u64).as_str());
        s.append("\nStatus: ");
        if self.is_zero_alloc() {
            s.append("✅ Zero allocations");
        } else {
            s.append("⚠️ Allocations detected");
        }
        s
    }
}

} // verus!

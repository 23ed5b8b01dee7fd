//! Benchmark utilities: allocation totals and timing of closures.

use core::time::Duration;
use vstd::prelude::*;

verus! {

/// Allocation totals: bytes allocated and deallocated, and the peak of the
/// allocated total.
pub struct TrackingAllocator {
    allocated: usize,
    deallocated: usize,
    peak: usize,
}

impl TrackingAllocator {
    pub closed spec fn allocated_total(&self) -> usize {
        self.allocated
    }

    pub closed spec fn deallocated_total(&self) -> usize {
        self.deallocated
    }

    pub closed spec fn peak_total(&self) -> usize {
        self.peak
    }

    /// The peak is never below the allocated total.
    #[verifier::type_invariant]
    spec fn peak_covers_allocated(&self) -> bool {
        self.peak >= self.allocated
    }

    /// Totals with nothing counted.
    pub fn new() -> (a: Self)
        ensures
            a.allocated_total() == 0,
            a.deallocated_total() == 0,
            a.peak_total() == 0,
    {
        TrackingAllocator { allocated: 0, deallocated: 0, peak: 0 }
    }

    /// Bytes allocated.
    pub fn allocated_bytes(&self) -> (r: usize)
        ensures
            r == self.allocated_total(),
    {
        self.allocated
    }

    /// Bytes deallocated.
    pub fn deallocated_bytes(&self) -> (r: usize)
        ensures
            r == self.deallocated_total(),
    {
        self.deallocated
    }

    /// Highest allocated total seen.
    pub fn peak_allocation(&self) -> (r: usize)
        ensures
            r == self.peak_total(),
            r >= self.allocated_total(),
    {
        proof {
            use_type_invariant(self);
        }
        self.peak
    }

    /// Allocated minus deallocated bytes, each taken as `isize` (wrapping).
    pub fn net_allocated(&self) -> (r: isize)
        requires
            (self.allocated_total() as isize) - (self.deallocated_total() as isize) >= isize::MIN,
            (self.allocated_total() as isize) - (self.deallocated_total() as isize) <= isize::MAX,
        ensures
            r == (self.allocated_total() as isize) - (self.deallocated_total() as isize),
    {
        (self.allocated as isize) - (self.deallocated as isize)
    }

    /// Records an allocation of `size` bytes; the peak follows the new total.
    pub fn record_allocation(&mut self, size: usize)
        requires
            old(self).allocated_total() + size <= usize::MAX,
        ensures
            final(self).allocated_total() == old(self).allocated_total() + size,
            final(self).peak_total() == (if old(self).allocated_total() + size > old(self).peak_total() {
                (old(self).allocated_total() + size) as usize
            } else {
                old(self).peak_total()
            }),
            final(self).deallocated_total() == old(self).deallocated_total(),
    {
        proof {
            use_type_invariant(&*self);
        }
        let current = self.allocated + size;
        if current > self.peak {
            self.peak = current;
        }
        self.allocated = current;
    }

    /// Records a deallocation of `size` bytes (the total wraps on overflow).
    pub fn record_deallocation(&mut self, size: usize)
        ensures
            final(self).deallocated_total() == old(self).deallocated_total().wrapping_add(size),
            final(self).allocated_total() == old(self).allocated_total(),
            final(self).peak_total() == old(self).peak_total(),
    {
        proof {
            use_type_invariant(&*self);
        }
        self.deallocated = self.deallocated.wrapping_add(size);
    }

    /// Clears the totals.
    pub fn reset(&mut self)
        ensures
            final(self).allocated_total() == 0,
            final(self).deallocated_total() == 0,
            final(self).peak_total() == 0,
    {
        self.allocated = 0;
        self.deallocated = 0;
        self.peak = 0;
    }
}

impl Default for TrackingAllocator {
    fn default() -> (a: Self)
        ensures
            a.allocated_total() == 0,
            a.deallocated_total() == 0,
            a.peak_total() == 0,
    {
        TrackingAllocator::new()
    }
}

/// A point in time of the monotonic clock.
#[verifier::external_type_specification]
#[verifier::external_body]
pub struct ExInstant(std::time::Instant);

/// The current instant.
///
/// Trusted: calls `std::time::Instant::now()`; nothing is stated of it.
#[verifier::external_body]
fn instant_now() -> std::time::Instant {
    std::time::Instant::now()
}

/// Time elapsed since `start`.
///
/// Trusted: calls `Instant::elapsed`; nothing is stated of the duration,
/// which depends on the clock.
#[verifier::external_body]
fn elapsed_since(start: &std::time::Instant) -> Duration {
    start.elapsed()
}

/// Runs `f` once and returns its result with the time it took.
pub fn measure_time<F, R>(f: F) -> (r: (R, Duration))
    where
        F: FnOnce() -> R,
    requires
        f.requires(()),
    ensures
        f.ensures((), r.0),
{
    let start = instant_now();
    let result = f();
    let duration = elapsed_since(&start);
    (result, duration)
}

/// Benchmark configuration for consistent testing.
#[derive(Debug, Clone)]
pub struct BenchmarkConfig {
    pub warmup_iterations: usize,
    pub measurement_iterations: usize,
    pub sample_size: usize,
}

impl Default for BenchmarkConfig {
    /// 10 warm-up and 100 measured iterations of 1000 samples.
    fn default() -> (c: Self)
        ensures
            c.warmup_iterations == 10,
            c.measurement_iterations == 100,
            c.sample_size == 1000,
    {
        BenchmarkConfig { warmup_iterations: 10, measurement_iterations: 100, sample_size: 1000 }
    }
}

} // verus!

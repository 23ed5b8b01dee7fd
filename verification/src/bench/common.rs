//! Events and configuration shared by the benchmarks.

use crate::bench::runtime::RuntimeType;
use vstd::prelude::*;

verus! {

/// Events fed to benchmarked state machines.
#[derive(Debug, Clone, PartialEq)]
pub enum BenchEvent {
    /// A single transition carrying a value
    Transition(u32),
    /// A batch of values
    Batch(Vec<u32>),
    /// Reset to the initial state
    Reset,
}

/// Performance test configuration.
#[derive(Debug, Clone)]
pub struct BenchConfig {
    pub runtime: RuntimeType,
    pub worker_threads: Option<usize>,
    pub warmup_iterations: usize,
    pub measurement_iterations: usize,
    pub sample_size: usize,
}

impl Default for BenchConfig {
    /// Single-threaded Tokio, 10 warm-up and 100 measured iterations of 1000 samples.
    fn default() -> (c: Self)
        ensures
            c.runtime == RuntimeType::TokioSingleThread,
            c.worker_threads is None,
            c.warmup_iterations == 10,
            c.measurement_iterations == 100,
            c.sample_size == 1000,
    {
        BenchConfig {
            runtime: RuntimeType::TokioSingleThread,
            worker_threads: None,
            warmup_iterations: 10,
            measurement_iterations: 100,
            sample_size: 1000,
        }
    }
}

/// Total number of messages a run processes: samples times measured iterations.
pub fn total_messages(config: &BenchConfig) -> (r: u64)
    requires
        config.sample_size * config.measurement_iterations <= u64::MAX,
    ensures
        r == config.sample_size * config.measurement_iterations,
{
    proof {
        vstd::arithmetic::mul::lemma_mul_upper_bound(config.sample_size as int, config.sample_size as int, config.measurement_iterations as int, config.measurement_iterations as int);
    }
    (config.sample_size as u64) * (config.measurement_iterations as u64)
}

/// Messages per second for `total` messages handled in `elapsed_nanos`
/// nanoseconds, rounded down, and `u64::MAX` where the rate does not fit or
/// no time elapsed.
pub open spec fn rate_per_second(total: u64, elapsed_nanos: u128) -> int {
    if elapsed_nanos == 0 {
        u64::MAX as int
    } else {
        let q = (total * 1_000_000_000) / (elapsed_nanos as int);
        if q > u64::MAX {
            u64::MAX as int
        } else {
            q
        }
    }
}

/// Throughput of a run: `total` messages over `elapsed_nanos` nanoseconds,
/// in whole messages per second (see [`rate_per_second`]).
pub fn throughput_per_second(total: u64, elapsed_nanos: u128) -> (r: u64)
    ensures
        r == rate_per_second(total, elapsed_nanos),
{
    if elapsed_nanos == 0 {
        return u64::MAX;
    }
    proof {
        assert(total * 1_000_000_000 <= u64::MAX * 1_000_000_000) by (nonlinear_arith)
            requires
                total <= u64::MAX,
        ;
    }
    let scaled: u128 = (total as u128) * 1_000_000_000;
    let q = scaled / elapsed_nanos;
    if q > u64::MAX as u128 {
        u64::MAX
    } else {
        q as u64
    }
}

/// The throughput rate is the whole number of messages per second: over the
/// elapsed time it accounts for no more messages than were handled, and one
/// message per second more would account for more. A rate that would not fit
/// in `u64`, or a run that took no time, reads `u64::MAX`.
pub proof fn lemma_rate_per_second_bounds(total: u64, elapsed_nanos: u128)
    ensures
        0 <= rate_per_second(total, elapsed_nanos) <= u64::MAX,
        elapsed_nanos == 0 ==> rate_per_second(total, elapsed_nanos) == u64::MAX,
        elapsed_nanos > 0 && rate_per_second(total, elapsed_nanos) < u64::MAX ==> {
            let r = rate_per_second(total, elapsed_nanos);
            &&& r * elapsed_nanos <= total * 1_000_000_000
            &&& total * 1_000_000_000 < (r + 1) * elapsed_nanos
        },
{
    if elapsed_nanos > 0 {
        let x = total * 1_000_000_000;
        let e = elapsed_nanos as int;
        vstd::arithmetic::div_mod::lemma_fundamental_div_mod(x, e);
        vstd::arithmetic::div_mod::lemma_mod_bound(x, e);
        vstd::arithmetic::div_mod::lemma_div_pos_is_pos(x, e);
        let q = x / e;
        assert((q + 1) * e == q * e + e) by (nonlinear_arith);
        assert(q * e == e * q) by (nonlinear_arith);
    }
}

} // verus!

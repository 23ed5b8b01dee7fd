//! Timer abstraction for delayed statechart transitions, and the duration
//! conversion the embedded timer uses.

use core::time::Duration;
use vstd::prelude::*;

verus! {

/// Total number of whole microseconds in `d`, as `Duration::as_micros` reports it.
pub uninterp spec fn duration_micros(d: Duration) -> u128;

/// Whole microseconds in `d`.
///
/// Trusted: calls `Duration::as_micros`, whose result is a function of the
/// duration alone; it is named `duration_micros`.
#[verifier::external_body]
fn duration_as_micros(d: &Duration) -> (r: u128)
    ensures
        r == duration_micros(*d),
{
    d.as_micros()
}

/// `micros` clamped to `u64::MAX`.
pub fn clamp_micros_to_u64(micros: u128) -> (r: u64)
    ensures
        r == (if micros > u64::MAX as u128 { u64::MAX } else { micros as u64 }),
{
    if micros > u64::MAX as u128 {
        u64::MAX
    } else {
        micros as u64
    }
}

/// Whole microseconds in `duration`, clamped to `u64::MAX` when larger.
pub fn duration_to_u64_micros(duration: Duration) -> (r: u64)
    ensures
        r == (if duration_micros(duration) > u64::MAX as u128 {
            u64::MAX
        } else {
            duration_micros(duration) as u64
        }),
{
    let micros = duration_as_micros(&duration);
    clamp_micros_to_u64(micros)
}

/// An already completed future.
#[verifier::external_type_specification]
#[verifier::external_body]
#[verifier::reject_recursive_types(T)]
pub struct ExReady<T>(core::future::Ready<T>);

/// A future that is ready at once.
///
/// Trusted: calls `core::future::ready(())`; nothing is stated of the future.
#[verifier::external_body]
fn ready_now() -> core::future::Ready<()> {
    core::future::ready(())
}

/// Platform-neutral timer service for async sleeps.
pub trait TimerService {
    /// Future returned by `sleep`.
    type SleepFuture: core::future::Future<Output = ()> + Send;

    /// A future that completes once `duration` has elapsed.
    fn sleep(duration: Duration) -> Self::SleepFuture;
}

/// Timer that completes at once, for builds without an async runtime.
pub struct NoOpTimer;

impl TimerService for NoOpTimer {
    type SleepFuture = core::future::Ready<()>;

    fn sleep(_duration: Duration) -> core::future::Ready<()> {
        ready_now()
    }
}

/// Timer for tests: sleeps complete at once, whatever the simulated delay.
pub struct TestTimer {
    /// Simulated delay before the timer fires
    pub delay: Duration,
}

impl TimerService for TestTimer {
    type SleepFuture = core::future::Ready<()>;

    fn sleep(_duration: Duration) -> core::future::Ready<()> {
        ready_now()
    }
}

} // verus!

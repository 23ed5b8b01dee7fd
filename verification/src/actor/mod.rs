//! Actor error types, restart strategies and the deterministic back-off
//! policy used by supervisors.

use vstd::arithmetic::power2::{lemma_pow2_strictly_increases, lemma2_to64, pow2};
use vstd::prelude::*;

pub mod address;
pub mod backpressure;
pub mod inbox;
pub mod lifecycle;
pub mod mailbox;
pub mod panic_handling;
pub mod spawn;
pub mod supervision;

verus! {

/// Error type for actor lifecycle and supervision hooks.
#[derive(Debug, PartialEq, Eq)]
pub enum ActorError {
    /// Actor failed to start properly
    StartupFailure,
    /// Actor failed to shut down cleanly
    ShutdownFailure,
    /// Actor panicked (or failed in a controlled way) while processing a message
    Panic {
        /// Panic message, if one could be extracted
        message: Option<String>,
        /// Identifier of the failing actor, if known
        actor_id: Option<String>,
    },
    /// Actor mailbox was closed unexpectedly
    MailboxClosed,
    /// Actor operation timed out
    Timeout,
    /// Supervision system failure
    SupervisionFailure(String),
    /// Custom error with a static message
    Custom(&'static str),
}

/// A copy of an optional text.
fn clone_text(t: &Option<String>) -> (r: Option<String>)
    ensures
        r == *t,
{
    match t {
        Some(s) => Some(s.clone()),
        None => None,
    }
}

impl Clone for ActorError {
    fn clone(&self) -> (r: Self)
        ensures
            r == *self,
    {
        match self {
            ActorError::StartupFailure => ActorError::StartupFailure,
            ActorError::ShutdownFailure => ActorError::ShutdownFailure,
            ActorError::Panic { message, actor_id } => ActorError::Panic {
                message: clone_text(message),
                actor_id: clone_text(actor_id),
            },
            ActorError::MailboxClosed => ActorError::MailboxClosed,
            ActorError::Timeout => ActorError::Timeout,
            ActorError::SupervisionFailure(s) => ActorError::SupervisionFailure(s.clone()),
            ActorError::Custom(s) => ActorError::Custom(s),
        }
    }
}

/// Restart strategy for actor supervision (OTP-inspired).
#[derive(Debug, Clone, Copy, PartialEq, Eq)]
pub enum RestartStrategy {
    /// Restart only the failed actor
    OneForOne,
    /// Restart all sibling actors
    OneForAll,
    /// Restart the failed actor and every actor started after it
    RestForOne,
    /// Always restart on any termination
    Permanent,
    /// Restart only on abnormal termination
    Transient,
    /// Never restart, let the actor die
    Temporary,
    /// Do not restart: the failure is for the parent supervisor to handle
    /// (the supervisor itself restarts nothing and sends nothing)
    Escalate,
    /// Explicit no-restart policy
    Never,
}

/// Deterministic back-off strategy for restart attempts.
#[derive(Debug, Clone)]
pub enum BackoffStrategy {
    /// No delay between restart attempts
    Immediate,
    /// delay = base_delay_ms * failure_count (saturating)
    Linear { base_delay_ms: u64 },
    /// delay = base_delay_ms * 2^failure_count (saturating), capped at max_delay_ms
    Exponential { base_delay_ms: u64, max_delay_ms: u64 },
    /// Fixed delay regardless of failure count
    Fixed { delay_ms: u64 },
}

/// Restart intensity configuration for supervision with deterministic back-off.
#[derive(Debug, Clone)]
pub struct RestartIntensity {
    /// Maximum number of restarts within the window before escalating
    pub max_restarts: u32,
    /// Time window for restart counting, in milliseconds
    pub restart_window_ms: u64,
    /// Back-off strategy applied between restart attempts
    pub backoff_strategy: BackoffStrategy,
}

impl Default for RestartIntensity {
    /// Five restarts per minute, exponential back-off from 100 ms up to 30 s.
    fn default() -> (r: Self)
        ensures
            r.max_restarts == 5,
            r.restart_window_ms == 60_000,
            r.backoff_strategy == (BackoffStrategy::Exponential {
                base_delay_ms: 100,
                max_delay_ms: 30_000,
            }),
    {
        RestartIntensity {
            max_restarts: 5,
            restart_window_ms: 60_000,
            backoff_strategy: BackoffStrategy::Exponential { base_delay_ms: 100, max_delay_ms: 30_000 },
        }
    }
}

/// Escalation policy for hierarchical supervision.
#[derive(Debug, Clone)]
pub enum EscalationPolicy {
    /// Supervisor terminates itself on escalation
    TerminateSelf,
    /// Send an escalation message to the parent supervisor
    NotifyParent,
    /// Apply custom escalation logic
    Custom,
}

impl Default for EscalationPolicy {
    fn default() -> (r: Self)
        ensures
            r == EscalationPolicy::TerminateSelf,
    {
        EscalationPolicy::TerminateSelf
    }
}

/// Messages exchanged between a supervisor and its children.
#[derive(Debug, Clone, PartialEq, Eq)]
pub enum SupervisorMessage<ChildId = u32> {
    /// Child actor has started successfully
    ChildStarted { id: ChildId },
    /// Child actor has stopped gracefully
    ChildStopped { id: ChildId },
    /// Child actor has panicked or failed
    ChildPanicked { id: ChildId, error: Box<ActorError> },
    /// Request to start a new child actor
    StartChild { id: ChildId },
    /// Request to stop a child actor
    StopChild { id: ChildId },
    /// Request to restart a child actor
    RestartChild { id: ChildId },
    /// A child supervisor escalated a failure it could not handle
    ChildEscalated { supervisor_id: ChildId, failed_child_id: ChildId, error: Box<ActorError> },
}

/// Supervisor of child actors, deciding the restart strategy on failure.
pub trait Supervisor {
    /// Type used to identify child actors
    type ChildId;

    /// Called when a child fails; returns the restart strategy to apply.
    fn on_child_failure(&mut self, child_id: Self::ChildId) -> RestartStrategy;

    /// Called when a child starts successfully.
    fn on_child_started(&mut self, _child_id: Self::ChildId) {
    }

    /// Called when a child stops gracefully.
    fn on_child_stopped(&mut self, _child_id: Self::ChildId) {
    }
}

/// `x` clamped into the range of `u64`.
pub open spec fn saturate_u64(x: int) -> u64 {
    if x > u64::MAX {
        u64::MAX
    } else if x < 0 {
        0
    } else {
        x as u64
    }
}

/// The exponent used by exponential back-off: the failure count itself, so
/// that the delay is `base_delay_ms * 2^failure_count` (saturating, then
/// capped at the maximum).
pub open spec fn backoff_exponent(failure_count: u32) -> nat {
    failure_count as nat
}

/// Delay in milliseconds that the deterministic back-off policy assigns to the
/// `failure_count`-th consecutive failure.
pub open spec fn backoff_delay(failure_count: u32, strategy: BackoffStrategy) -> u64 {
    match strategy {
        BackoffStrategy::Immediate => 0,
        BackoffStrategy::Linear { base_delay_ms } => saturate_u64(base_delay_ms * failure_count),
        BackoffStrategy::Exponential { base_delay_ms, max_delay_ms } => {
            let factor = saturate_u64(pow2(backoff_exponent(failure_count)) as int);
            let delay = saturate_u64(base_delay_ms * factor);
            if delay < max_delay_ms {
                delay
            } else {
                max_delay_ms
            }
        },
        BackoffStrategy::Fixed { delay_ms } => delay_ms,
    }
}

/// Whether the default policy restarts an actor that failed with `error`:
/// every failure except supervision failures and shutdown failures.
pub open spec fn restart_wanted(error: ActorError) -> bool {
    match error {
        ActorError::SupervisionFailure(_) => false,
        ActorError::ShutdownFailure => false,
        _ => true,
    }
}

/// `a * b`, saturating at `u64::MAX`.
fn saturating_mul_u64(a: u64, b: u64) -> (r: u64)
    ensures
        r == saturate_u64(a * b),
{
    match a.checked_mul(b) {
        Some(p) => p,
        None => u64::MAX,
    }
}

/// `2^e`, saturating at `u64::MAX`.
fn saturating_pow2(e: u32) -> (r: u64)
    ensures
        r == saturate_u64(pow2(e as nat) as int),
{
    proof {
        lemma2_to64();
    }
    if e >= 64 {
        proof {
            if e > 64 {
                lemma_pow2_strictly_increases(64, e as nat);
            }
        }
        return u64::MAX;
    }
    let mut p: u64 = 1;
    let mut i: u32 = 0;
    while i < e
        invariant
            i <= e < 64,
            p == pow2(i as nat),
        decreases e - i,
    {
        proof {
            lemma2_to64();
            vstd::arithmetic::power2::lemma_pow2_unfold((i + 1) as nat);
            lemma_pow2_strictly_increases((i + 1) as nat, 64);
        }
        p = p * 2;
        i = i + 1;
    }
    p
}

/// Saturation preserves order.
proof fn lemma_saturate_monotone(a: int, b: int)
    requires
        a <= b,
    ensures
        saturate_u64(a) <= saturate_u64(b),
{
}

/// Back-off never shrinks as failures accumulate: for every strategy, a later
/// failure waits at least as long as an earlier one.
pub proof fn lemma_backoff_monotone(fc1: u32, fc2: u32, strategy: BackoffStrategy)
    requires
        fc1 <= fc2,
    ensures
        backoff_delay(fc1, strategy) <= backoff_delay(fc2, strategy),
{
    match strategy {
        BackoffStrategy::Linear { base_delay_ms } => {
            vstd::arithmetic::mul::lemma_mul_inequality(fc1 as int, fc2 as int, base_delay_ms as int);
            vstd::arithmetic::mul::lemma_mul_is_commutative(fc1 as int, base_delay_ms as int);
            vstd::arithmetic::mul::lemma_mul_is_commutative(fc2 as int, base_delay_ms as int);
            lemma_saturate_monotone(base_delay_ms * fc1, base_delay_ms * fc2);
        },
        BackoffStrategy::Exponential { base_delay_ms, max_delay_ms } => {
            let e1 = backoff_exponent(fc1);
            let e2 = backoff_exponent(fc2);
            if e1 < e2 {
                lemma_pow2_strictly_increases(e1, e2);
            }
            let f1 = saturate_u64(pow2(e1) as int);
            let f2 = saturate_u64(pow2(e2) as int);
            lemma_saturate_monotone(pow2(e1) as int, pow2(e2) as int);
            vstd::arithmetic::mul::lemma_mul_inequality(f1 as int, f2 as int, base_delay_ms as int);
            vstd::arithmetic::mul::lemma_mul_is_commutative(f1 as int, base_delay_ms as int);
            vstd::arithmetic::mul::lemma_mul_is_commutative(f2 as int, base_delay_ms as int);
            lemma_saturate_monotone(base_delay_ms * f1, base_delay_ms * f2);
        },
        _ => {},
    }
}

/// Exponential back-off never exceeds its configured maximum delay.
pub proof fn lemma_exponential_backoff_capped(
    failure_count: u32,
    base_delay_ms: u64,
    max_delay_ms: u64,
)
    ensures
        backoff_delay(
            failure_count,
            BackoffStrategy::Exponential { base_delay_ms, max_delay_ms },
        ) <= max_delay_ms,
{
}

/// How consecutive back-off delays relate: no delay for `Immediate`, the
/// same delay every time for `Fixed`; `Linear` starts at nothing and grows
/// by its base with each further failure; `Exponential` starts at its base
/// (or the cap, if smaller) and doubles with each further failure while the
/// doubled delay stays below the cap. (Where a delay would exceed `u64` it
/// saturates instead.)
pub proof fn lemma_backoff_steps(n: u32, strategy: BackoffStrategy)
    requires
        n < u32::MAX,
    ensures
        strategy is Immediate ==> backoff_delay(n, strategy) == 0,
        strategy matches BackoffStrategy::Fixed { delay_ms } ==> backoff_delay(n, strategy) == delay_ms,
        strategy matches BackoffStrategy::Linear { base_delay_ms } ==> {
            &&& backoff_delay(0, strategy) == 0
            &&& base_delay_ms * (n + 1) <= u64::MAX ==> backoff_delay((n + 1) as u32, strategy) == backoff_delay(n, strategy) + base_delay_ms
        },
        strategy matches BackoffStrategy::Exponential { base_delay_ms, max_delay_ms } ==> {
            &&& backoff_delay(0, strategy) == if base_delay_ms < max_delay_ms { base_delay_ms } else { max_delay_ms }
            &&& 2 * backoff_delay(n, strategy) < max_delay_ms ==> backoff_delay((n + 1) as u32, strategy) == 2 * backoff_delay(n, strategy)
        },
{
    match strategy {
        BackoffStrategy::Linear { base_delay_ms } => {
            assert(base_delay_ms * 0 == 0);
            if base_delay_ms * (n + 1) <= u64::MAX {
                assert(base_delay_ms * (n + 1) == base_delay_ms * n + base_delay_ms) by (nonlinear_arith);
                assert(base_delay_ms * n <= base_delay_ms * (n + 1)) by (nonlinear_arith);
            }
        },
        BackoffStrategy::Exponential { base_delay_ms, max_delay_ms } => {
            let b = base_delay_ms as int;
            assert(pow2(0) == 1) by {
                vstd::arithmetic::power2::lemma2_to64();
            }
            assert(b * 1 == b);
            let d = backoff_delay(n, strategy);
            if 2 * d < max_delay_ms {
                let p = pow2(n as nat);
                let q = pow2((n + 1) as nat);
                vstd::arithmetic::power2::lemma_pow2_unfold((n + 1) as nat);
                vstd::arithmetic::power2::lemma_pow2_pos(n as nat);
                assert(q == 2 * p);
                // the delay at n is below the cap, so it is base * 2^n unsaturated
                let f = saturate_u64(p as int);
                assert(d == saturate_u64(b * f));
                assert(d < max_delay_ms);
                if b == 0 {
                    assert(b * f == 0);
                    assert(b * saturate_u64(q as int) == 0);
                } else {
                    assert(b * f >= f) by (nonlinear_arith)
                        requires
                            b >= 1,
                            f >= 0,
                    ;
                    assert(f == p);
                    assert(b * p == d);
                    assert(b * q == 2 * d) by (nonlinear_arith)
                        requires
                            q == 2 * p,
                            b * p == d,
                    ;
                    assert(q <= b * q) by (nonlinear_arith)
                        requires
                            b >= 1,
                            q >= 0,
                    ;
                    assert(saturate_u64(q as int) == q);
                }
            }
        },
        _ => {},
    }
}

/// The default policy restarts an actor after any failure except a
/// supervision failure or a failed shutdown: startup failures, panics,
/// closed mailboxes, timeouts and custom errors are all restarted.
pub proof fn lemma_default_policy_restarts(error: ActorError)
    ensures
        restart_wanted(error) <==> !(error is SupervisionFailure || error is ShutdownFailure),
        restart_wanted(ActorError::StartupFailure),
        restart_wanted(ActorError::MailboxClosed),
        restart_wanted(ActorError::Timeout),
{
}

/// Extensible panic analysis used by supervisors to decide restarts.
pub trait PanicAnalyzer {
    /// Whether the failed child should be restarted.
    fn should_restart<C>(&self, child_id: &C, error: &ActorError) -> bool;

    /// Back-off delay in milliseconds before restarting after `failure_count` failures.
    fn calculate_backoff_delay(&self, failure_count: u32, strategy: &BackoffStrategy) -> u64;

    /// Whether the supervisor should escalate the failure to its parent.
    fn should_escalate<C>(
        &self,
        child_id: &C,
        failure_count: u32,
        intensity: &RestartIntensity,
    ) -> bool;
}

/// Default panic analysis following OTP conventions.
#[derive(Debug, Default)]
pub struct DefaultPanicAnalyzer;

impl PanicAnalyzer for DefaultPanicAnalyzer {
    fn should_restart<C>(&self, child_id: &C, error: &ActorError) -> (r: bool)
        ensures
            r == restart_wanted(*error),
    {
        match error {
            ActorError::Panic { .. } => true,
            ActorError::Custom(_) => true,
            ActorError::StartupFailure => true,
            ActorError::MailboxClosed => true,
            ActorError::Timeout => true,
            ActorError::SupervisionFailure(_) => false,
            ActorError::ShutdownFailure => false,
        }
    }

    fn calculate_backoff_delay(&self, failure_count: u32, strategy: &BackoffStrategy) -> (r: u64)
        ensures
            r == backoff_delay(failure_count, *strategy),
    {
        match strategy {
            BackoffStrategy::Immediate => 0,
            BackoffStrategy::Linear { base_delay_ms } => {
                saturating_mul_u64(*base_delay_ms, failure_count as u64)
            },
            BackoffStrategy::Exponential { base_delay_ms, max_delay_ms } => {
                let factor = saturating_pow2(failure_count);
                let delay = saturating_mul_u64(*base_delay_ms, factor);
                if delay < *max_delay_ms {
                    delay
                } else {
                    *max_delay_ms
                }
            },
            BackoffStrategy::Fixed { delay_ms } => *delay_ms,
        }
    }

    fn should_escalate<C>(
        &self,
        child_id: &C,
        failure_count: u32,
        intensity: &RestartIntensity,
    ) -> (r: bool)
        ensures
            r == (failure_count >= intensity.max_restarts),
    {
        failure_count >= intensity.max_restarts
    }
}

} // verus!

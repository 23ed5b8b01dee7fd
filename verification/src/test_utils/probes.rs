//! Events that test probes observe during an actor's life, and the errors
//! of waiting for them.

use vstd::prelude::*;

verus! {

/// Events observable during actor lifecycle and execution.
#[derive(Debug, Clone, PartialEq, Eq)]
pub enum ProbeEvent {
    /// Actor state transition occurred
    StateTransition { from: String, to: String },
    /// Actor received a message of the given type
    MessageReceived { message_type: String },
    /// Actor received a message with captured content
    MessageWithContent { message_type: String, content: String },
    /// Actor started successfully
    ActorStarted,
    /// Actor stopped
    ActorStopped,
    /// Actor panicked with error details
    PanicOccurred { error: String },
}

/// Errors of probe operations.
#[derive(Debug, Clone, PartialEq, Eq)]
pub enum TestError {
    /// Timed out waiting for an expected event
    Timeout,
    /// Event stream ended unexpectedly
    UnexpectedEnd,
    /// Received an event other than the expected one
    UnexpectedEvent(ProbeEvent),
}

impl TestError {
    /// Description of the timeout and end-of-stream errors; unexpected
    /// events are described by their debug form, see the test kit.
    pub fn description(&self) -> (r: String)
        ensures
            r@ == match self {
                TestError::Timeout => "Operation timed out waiting for expected event"@,
                TestError::UnexpectedEnd => "Event stream ended unexpectedly"@,
                TestError::UnexpectedEvent(_) => "Received unexpected event"@,
            },
    {
        match self {
            TestError::Timeout => String::from_str("Operation timed out waiting for expected event"),
            TestError::UnexpectedEnd => String::from_str("Event stream ended unexpectedly"),
            TestError::UnexpectedEvent(_) => String::from_str("Received unexpected event"),
        }
    }
}

/// A probe string holding `s`.
pub fn create_probe_string(s: &str) -> (r: String)
    ensures
        r@ == s@,
{
    String::from_str(s)
}

/// Whether a probe event records a received message.
pub fn is_message_event(e: &ProbeEvent) -> (r: bool)
    ensures
        r == (e is MessageReceived || e is MessageWithContent),
{
    match e {
        ProbeEvent::MessageReceived { .. } => true,
        ProbeEvent::MessageWithContent { .. } => true,
        _ => false,
    }
}

/// Whether `a` holds the text `b`.
fn same_text(a: &String, b: &str) -> (r: bool)
    ensures
        r == (a@ == b@),
{
    let expected = String::from_str(b);
    *a == expected
}

/// Whether `e` records the state transition from `from` to `to`.
pub fn is_transition(e: &ProbeEvent, from: &str, to: &str) -> (r: bool)
    ensures
        r == (e matches ProbeEvent::StateTransition { from: f, to: t } && f@ == from@ && t@ == to@),
{
    match e {
        ProbeEvent::StateTransition { from: f, to: t } => same_text(f, from) && same_text(t, to),
        _ => false,
    }
}

/// Whether `e` records a received message of type `message_type`, with or
/// without captured content.
pub fn has_message_type(e: &ProbeEvent, message_type: &str) -> (r: bool)
    ensures
        r == ((e matches ProbeEvent::MessageReceived { message_type: m } && m@ == message_type@)
            || (e matches ProbeEvent::MessageWithContent { message_type: m, .. } && m@ == message_type@)),
{
    match e {
        ProbeEvent::MessageReceived { message_type: m } => same_text(m, message_type),
        ProbeEvent::MessageWithContent { message_type: m, .. } => same_text(m, message_type),
        _ => false,
    }
}

/// Whether `e` records a message of type `message_type` captured with the
/// content `content`.
pub fn has_message_content(e: &ProbeEvent, message_type: &str, content: &str) -> (r: bool)
    ensures
        r == (e matches ProbeEvent::MessageWithContent { message_type: m, content: c } && m@ == message_type@
            && c@ == content@),
{
    match e {
        ProbeEvent::MessageWithContent { message_type: m, content: c } => same_text(m, message_type)
            && same_text(c, content),
        _ => false,
    }
}

/// The event an instrumented actor emits after its start hook returned
/// `result`: `ActorStarted` after a successful start, nothing otherwise.
pub fn start_event(result: &Result<(), crate::actor::ActorError>) -> (r: Option<ProbeEvent>)
    ensures
        r == (if result is Ok { Some(ProbeEvent::ActorStarted) } else { None::<ProbeEvent> }),
{
    match result {
        Ok(_) => Some(ProbeEvent::ActorStarted),
        Err(_) => None,
    }
}

} // verus!

use lit_bit_core::test_utils::probes::{has_message_content, has_message_type, is_transition, start_event};
use lit_bit_core::actor::ActorError;
use lit_bit_core::test_utils::probes::{create_probe_string, is_message_event, ProbeEvent, TestError};
use lit_bit_core::timer::{clamp_micros_to_u64, duration_to_u64_micros, NoOpTimer, TestTimer, TimerService};
use std::time::Duration;

fn accept_timer_service<T: TimerService>(_timer: T) {}

#[test]
fn timer_service_trait_compiles() {
    accept_timer_service(TestTimer { delay: Duration::from_millis(100) });
    accept_timer_service(NoOpTimer);
}

#[test]
fn test_timers_complete_at_once() {
    let fut = TestTimer::sleep(Duration::from_secs(3600));
    assert_eq!(futures::executor::block_on(fut), ());
    futures::executor::block_on(NoOpTimer::sleep(Duration::from_millis(1)));
}

#[test]
fn duration_conversion_works() {
    let duration = Duration::from_secs(5);
    assert_eq!(duration.as_secs(), 5);

    let duration_ms = Duration::from_millis(250);
    assert_eq!(duration_ms.as_millis(), 250);
}

#[test]
fn duration_microseconds_overflow_behavior() {
    let max_duration = Duration::MAX;
    let micros = max_duration.as_micros();

    let safe_micros = duration_to_u64_micros(max_duration);

    if micros > u64::MAX as u128 {
        assert_eq!(safe_micros, u64::MAX);
    } else {
        assert_eq!(safe_micros, micros as u64);
    }
}

#[test]
fn test_duration_safe_conversion_logic() {
    assert_eq!(duration_to_u64_micros(Duration::from_secs(1)), 1_000_000);
    assert_eq!(duration_to_u64_micros(Duration::from_millis(500)), 500_000);
    assert_eq!(duration_to_u64_micros(Duration::from_micros(123)), 123);

    let max_micros_duration = Duration::from_micros(u64::MAX);
    assert_eq!(duration_to_u64_micros(max_micros_duration), u64::MAX);

    let max_duration = Duration::MAX;
    assert_eq!(duration_to_u64_micros(max_duration), u64::MAX);

    assert!(max_duration.as_micros() > u64::MAX as u128);
}

#[test]
fn clamp_micros_keeps_small_values() {
    assert_eq!(clamp_micros_to_u64(0), 0);
    assert_eq!(clamp_micros_to_u64(u64::MAX as u128), u64::MAX);
    assert_eq!(clamp_micros_to_u64(u64::MAX as u128 + 1), u64::MAX);
    assert_eq!(duration_to_u64_micros(Duration::from_nanos(1999)), 1);
}

#[test]
fn probe_event_equality_works() {
    let event1 = ProbeEvent::ActorStarted;
    let event2 = ProbeEvent::ActorStarted;
    let event3 = ProbeEvent::ActorStopped;

    assert_eq!(event1, event2);
    assert_ne!(event1, event3);
}

#[test]
fn state_transition_event_equality() {
    let transition1 =
        ProbeEvent::StateTransition { from: create_probe_string("Idle"), to: create_probe_string("Running") };
    let transition2 =
        ProbeEvent::StateTransition { from: create_probe_string("Idle"), to: create_probe_string("Running") };
    let transition3 =
        ProbeEvent::StateTransition { from: create_probe_string("Running"), to: create_probe_string("Idle") };

    assert_eq!(transition1, transition2);
    assert_ne!(transition1, transition3);
}

#[test]
fn test_error_display() {
    let timeout_error = TestError::Timeout;
    assert!(timeout_error.description().contains("timed out"));
}

#[test]
fn test_error_descriptions() {
    assert_eq!(TestError::Timeout.description(), "Operation timed out waiting for expected event");
    assert_eq!(TestError::UnexpectedEnd.description(), "Event stream ended unexpectedly");
    assert_eq!(
        TestError::UnexpectedEvent(ProbeEvent::ActorStopped).description(),
        "Received unexpected event"
    );
}

#[test]
fn message_content_event_creation() {
    let message_event = ProbeEvent::MessageWithContent {
        message_type: create_probe_string("Calculate"),
        content: create_probe_string("Add(5, 3)"),
    };

    match message_event {
        ProbeEvent::MessageWithContent { message_type, content } => {
            assert_eq!(message_type.as_str(), "Calculate");
            assert_eq!(content.as_str(), "Add(5, 3)");
        }
        _ => panic!("Expected MessageWithContent event"),
    }
}

#[test]
fn message_events_are_recognised() {
    assert!(is_message_event(&ProbeEvent::MessageReceived { message_type: create_probe_string("Ping") }));
    assert!(is_message_event(&ProbeEvent::MessageWithContent {
        message_type: create_probe_string("Ping"),
        content: create_probe_string("1"),
    }));
    assert!(!is_message_event(&ProbeEvent::ActorStarted));
    assert!(!is_message_event(&ProbeEvent::PanicOccurred { error: create_probe_string("boom") }));
}

#[test]
fn probe_event_predicates() {
    let t = ProbeEvent::StateTransition { from: create_probe_string("Idle"), to: create_probe_string("Running") };
    assert!(is_transition(&t, "Idle", "Running"));
    assert!(!is_transition(&t, "Running", "Idle"));
    let m = ProbeEvent::MessageWithContent {
        message_type: create_probe_string("Calculate"),
        content: create_probe_string("Add(5, 3)"),
    };
    assert!(has_message_type(&m, "Calculate"));
    assert!(has_message_content(&m, "Calculate", "Add(5, 3)"));
    assert!(!has_message_content(&m, "Calculate", "Add(5, 4)"));
    assert!(!has_message_type(&t, "Calculate"));
    assert_eq!(start_event(&Ok(())), Some(ProbeEvent::ActorStarted));
    assert_eq!(start_event(&Err(ActorError::StartupFailure)), None);
}

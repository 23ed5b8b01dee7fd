use lit_bit_core::actor::spawn::{CounterActor, CounterBatchActor, SpawnError};
use lit_bit_core::actor::supervision::SupervisorError;
use lit_bit_core::actor::{
    ActorError, BackoffStrategy, DefaultPanicAnalyzer, EscalationPolicy, PanicAnalyzer, RestartIntensity,
};
use lit_bit_core::text::decimal_string;

#[test]
fn counter_batch_actor_implements_batch_trait() {
    let actor = CounterBatchActor::new();
    assert_eq!(actor.max_batch_size(), 16);
    assert_eq!(CounterBatchActor::with_batch_size(4).max_batch_size(), 4);
}

#[test]
fn counter_batch_actor_sums_batches() {
    let mut actor = CounterBatchActor::default();
    actor.handle_batch(&[1, 2, 3]);
    actor.handle_batch(&[]);
    actor.handle_batch(&[10]);
    assert_eq!(actor.value(), 16);
}

#[test]
fn counter_actor_adds_messages() {
    let mut actor = CounterActor::new();
    assert_eq!(actor.value(), 0);
    actor.handle(10);
    actor.handle(5);
    assert_eq!(actor.value(), 15);
    assert_eq!(CounterActor::default().value(), 0);
}

#[test]
fn restart_intensity_defaults() {
    let intensity = RestartIntensity::default();
    assert_eq!(intensity.max_restarts, 5);
    assert_eq!(intensity.restart_window_ms, 60_000);
    assert!(matches!(
        intensity.backoff_strategy,
        BackoffStrategy::Exponential { base_delay_ms: 100, max_delay_ms: 30_000 }
    ));
    assert!(matches!(EscalationPolicy::default(), EscalationPolicy::TerminateSelf));
}

#[test]
fn exponential_backoff_doubles_and_caps() {
    let analyzer = DefaultPanicAnalyzer;
    let strategy = BackoffStrategy::Exponential { base_delay_ms: 100, max_delay_ms: 30_000 };
    assert_eq!(analyzer.calculate_backoff_delay(0, &strategy), 100);
    assert_eq!(analyzer.calculate_backoff_delay(1, &strategy), 200);
    assert_eq!(analyzer.calculate_backoff_delay(2, &strategy), 400);
    assert_eq!(analyzer.calculate_backoff_delay(4, &strategy), 1600);
    assert_eq!(analyzer.calculate_backoff_delay(8, &strategy), 25_600);
    assert_eq!(analyzer.calculate_backoff_delay(9, &strategy), 30_000);
    assert_eq!(analyzer.calculate_backoff_delay(200, &strategy), 30_000);
}

#[test]
fn other_backoff_strategies() {
    let analyzer = DefaultPanicAnalyzer;
    assert_eq!(analyzer.calculate_backoff_delay(7, &BackoffStrategy::Immediate), 0);
    assert_eq!(analyzer.calculate_backoff_delay(3, &BackoffStrategy::Linear { base_delay_ms: 50 }), 150);
    assert_eq!(
        analyzer.calculate_backoff_delay(u32::MAX, &BackoffStrategy::Linear { base_delay_ms: u64::MAX }),
        u64::MAX
    );
    assert_eq!(analyzer.calculate_backoff_delay(3, &BackoffStrategy::Fixed { delay_ms: 42 }), 42);
}

#[test]
fn default_analyzer_restart_and_escalation() {
    let analyzer = DefaultPanicAnalyzer;
    let id = 7u32;
    assert!(analyzer.should_restart(&id, &ActorError::Panic { message: None, actor_id: None }));
    assert!(analyzer.should_restart(&id, &ActorError::Timeout));
    assert!(analyzer.should_restart(&id, &ActorError::Custom("oops")));
    assert!(!analyzer.should_restart(&id, &ActorError::ShutdownFailure));
    assert!(!analyzer.should_restart(&id, &ActorError::SupervisionFailure("x".to_string())));

    let intensity = RestartIntensity::default();
    assert!(!analyzer.should_escalate(&id, 4, &intensity));
    assert!(analyzer.should_escalate(&id, 5, &intensity));
}

#[test]
fn spawn_error_from_supervisor_error() {
    assert_eq!(
        SpawnError::from(SupervisorError::CapacityExceeded),
        SpawnError::Supervisor(SupervisorError::CapacityExceeded)
    );
    assert_ne!(SpawnError::from(SupervisorError::ChildAlreadyExists), SpawnError::SpawnFailed);
}

#[test]
fn decimal_text_of_numbers() {
    assert_eq!(decimal_string(0), "0");
    assert_eq!(decimal_string(7), "7");
    assert_eq!(decimal_string(1200), "1200");
    assert_eq!(decimal_string(u64::MAX), "18446744073709551615");
}

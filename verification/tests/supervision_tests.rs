use lit_bit_core::actor::supervision::{ChildRestart, RestartFactory, SupervisorActor, SupervisorError};
use lit_bit_core::actor::{ActorError, RestartStrategy, Supervisor, SupervisorMessage};
use std::sync::atomic::{AtomicUsize, Ordering};
use std::sync::Arc;

struct CountingRestart {
    calls: Arc<AtomicUsize>,
    succeed: bool,
}

impl ChildRestart for CountingRestart {
    fn restart(&self) -> Result<(), SupervisorError> {
        self.calls.fetch_add(1, Ordering::SeqCst);
        if self.succeed { Ok(()) } else { Err(SupervisorError::RestartFailed) }
    }
}

fn counting_factory(calls: &Arc<AtomicUsize>, succeed: bool) -> RestartFactory {
    Box::new(CountingRestart { calls: calls.clone(), succeed })
}

#[test]
fn supervisor_creation_works() {
    let supervisor = SupervisorActor::new();
    assert_eq!(supervisor.default_restart_strategy(), RestartStrategy::OneForOne);
    assert_eq!(supervisor.restart_limit(), 5);
    assert_eq!(supervisor.restart_window(), 60_000);
}

#[test]
fn add_and_remove_children() {
    let mut supervisor = SupervisorActor::new();

    assert!(supervisor.add_child(1, None).is_ok());

    assert!(supervisor.remove_child(&1));
    assert!(!supervisor.remove_child(&1));
}

#[test]
fn child_uniqueness_check() {
    let mut supervisor = SupervisorActor::new();

    assert!(supervisor.add_child(1, None).is_ok());

    assert_eq!(
        supervisor.add_child(1, Some(RestartStrategy::OneForAll)),
        Err(SupervisorError::ChildAlreadyExists)
    );

    assert!(supervisor.add_child(2, None).is_ok());

    assert!(supervisor.remove_child(&1));
    assert!(supervisor.add_child(1, None).is_ok());
}

#[test]
fn restart_strategies() {
    let supervisor = SupervisorActor::new();

    let to_restart = supervisor.get_children_to_restart(&1, RestartStrategy::OneForOne);
    assert_eq!(to_restart, vec![1]);
}

#[test]
fn supervisor_actor_trait() {
    let mut supervisor = SupervisorActor::new();

    supervisor.handle_message(SupervisorMessage::ChildStarted { id: 1 });
    supervisor.handle_message(SupervisorMessage::ChildPanicked {
        id: 1,
        error: Box::new(ActorError::Panic { message: None, actor_id: None }),
    });
    assert_eq!(supervisor.child_count(), 0);
}

#[test]
fn rest_for_one_strategy_ordering() {
    let mut supervisor = SupervisorActor::new();

    assert!(supervisor.add_child(1, Some(RestartStrategy::RestForOne)).is_ok());
    assert!(supervisor.add_child(2, Some(RestartStrategy::RestForOne)).is_ok());
    assert!(supervisor.add_child(3, Some(RestartStrategy::RestForOne)).is_ok());
    assert!(supervisor.add_child(4, Some(RestartStrategy::RestForOne)).is_ok());

    let to_restart = supervisor.get_children_to_restart(&2, RestartStrategy::RestForOne);
    assert_eq!(to_restart.len(), 3);
    assert!(to_restart.contains(&2));
    assert!(to_restart.contains(&3));
    assert!(to_restart.contains(&4));
    assert!(!to_restart.contains(&1));

    let to_restart = supervisor.get_children_to_restart(&1, RestartStrategy::RestForOne);
    assert_eq!(to_restart.len(), 4);
    assert!(to_restart.contains(&1));
    assert!(to_restart.contains(&2));
    assert!(to_restart.contains(&3));
    assert!(to_restart.contains(&4));

    let to_restart = supervisor.get_children_to_restart(&4, RestartStrategy::RestForOne);
    assert_eq!(to_restart.len(), 1);
    assert!(to_restart.contains(&4));

    let to_restart = supervisor.get_children_to_restart(&999, RestartStrategy::RestForOne);
    assert_eq!(to_restart.len(), 0);
}

#[test]
fn rest_for_one_follows_start_order_after_readding() {
    let mut supervisor = SupervisorActor::new();
    for id in [1, 2, 3] {
        assert!(supervisor.add_child(id, None).is_ok());
    }
    assert!(supervisor.remove_child(&1));
    assert!(supervisor.add_child(1, None).is_ok());
    assert_eq!(supervisor.get_children_to_restart(&2, RestartStrategy::RestForOne), vec![2, 3, 1]);
    assert_eq!(supervisor.get_children_to_restart(&1, RestartStrategy::RestForOne), vec![1]);
    assert_eq!(supervisor.get_children_to_restart(&3, RestartStrategy::OneForAll), vec![2, 3, 1]);
    assert!(supervisor.get_children_to_restart(&3, RestartStrategy::Escalate).is_empty());
}

#[test]
fn test_restart_factory_execution() {
    let mut supervisor = SupervisorActor::new();
    let calls = Arc::new(AtomicUsize::new(0));

    assert!(supervisor
        .add_child_with_factory(1, counting_factory(&calls, true), Some(RestartStrategy::OneForOne))
        .is_ok());

    let restarted_count = supervisor.execute_restarts(&1, RestartStrategy::OneForOne);

    assert_eq!(restarted_count, 1);
    assert_eq!(calls.load(Ordering::SeqCst), 1);
}

#[test]
fn test_restart_with_one_for_all_strategy() {
    let mut supervisor = SupervisorActor::new();
    let calls_1 = Arc::new(AtomicUsize::new(0));
    let calls_2 = Arc::new(AtomicUsize::new(0));

    assert!(supervisor
        .add_child_with_factory(1, counting_factory(&calls_1, true), Some(RestartStrategy::OneForAll))
        .is_ok());
    assert!(supervisor
        .add_child_with_factory(2, counting_factory(&calls_2, true), Some(RestartStrategy::OneForAll))
        .is_ok());

    let restarted_count = supervisor.execute_restarts(&1, RestartStrategy::OneForAll);

    assert_eq!(restarted_count, 2);
    assert_eq!(calls_1.load(Ordering::SeqCst), 1);
    assert_eq!(calls_2.load(Ordering::SeqCst), 1);
}

#[test]
fn failed_restart_removes_child() {
    let mut supervisor = SupervisorActor::new();
    let calls = Arc::new(AtomicUsize::new(0));
    assert!(supervisor.add_child_with_factory(7, counting_factory(&calls, false), None).is_ok());
    assert!(supervisor.add_child(8, None).is_ok());
    assert_eq!(supervisor.execute_restarts(&7, RestartStrategy::OneForAll), 0);
    assert_eq!(calls.load(Ordering::SeqCst), 1);
    assert_eq!(supervisor.child_count(), 0);
}

#[test]
fn restart_limit_within_window_removes_child() {
    let mut supervisor = SupervisorActor::with_config(RestartStrategy::RestForOne, 2, 1000);
    assert!(supervisor.add_child_with_factory_at(5, None, None, 100).is_ok());
    assert_eq!(supervisor.handle_child_failure_at(&5, 200), Some(RestartStrategy::RestForOne));
    assert_eq!(supervisor.handle_child_failure_at(&5, 300), Some(RestartStrategy::RestForOne));
    assert_eq!(supervisor.handle_child_failure_at(&5, 400), None);
    assert!(!supervisor.contains_child(5));
    assert_eq!(supervisor.handle_child_failure_at(&5, 500), None);
}

#[test]
fn failure_after_window_starts_new_count() {
    let mut supervisor = SupervisorActor::with_config(RestartStrategy::OneForOne, 1, 1000);
    assert!(supervisor.add_child_with_factory_at(5, None, None, 0).is_ok());
    assert_eq!(supervisor.handle_child_failure_at(&5, 10), Some(RestartStrategy::OneForOne));
    assert_eq!(supervisor.handle_child_failure_at(&5, 2000), Some(RestartStrategy::OneForOne));
    assert!(supervisor.contains_child(5));
    assert_eq!(supervisor.handle_child_failure_at(&5, 2500), None);
}

#[test]
fn messages_start_stop_and_restart_children() {
    let mut supervisor = SupervisorActor::new();
    supervisor.handle_message_at(SupervisorMessage::StartChild { id: 3 }, 0);
    assert!(supervisor.contains_child(3));
    supervisor.handle_message_at(SupervisorMessage::StartChild { id: 3 }, 0);
    assert_eq!(supervisor.child_count(), 1);
    supervisor.handle_message_at(SupervisorMessage::RestartChild { id: 3 }, 5);
    assert!(!supervisor.contains_child(3));
    supervisor.handle_message_at(SupervisorMessage::StartChild { id: 4 }, 0);
    supervisor.handle_message_at(SupervisorMessage::StopChild { id: 4 }, 0);
    assert_eq!(supervisor.child_count(), 0);
}

#[test]
fn on_child_failure_reports_strategy() {
    let mut supervisor = SupervisorActor::new();
    assert!(supervisor.add_child(1, Some(RestartStrategy::OneForAll)).is_ok());
    assert_eq!(supervisor.on_child_failure(1), RestartStrategy::OneForAll);
    assert_eq!(supervisor.on_child_failure(42), RestartStrategy::OneForOne);
    assert!(supervisor.start_sequence_available());
}

#[test]
fn default_supervisor_matches_new() {
    let supervisor = SupervisorActor::default();
    assert_eq!(supervisor.default_restart_strategy(), RestartStrategy::OneForOne);
    assert_eq!(supervisor.restart_limit(), 5);
    assert_eq!(supervisor.child_count(), 0);
}

#[test]
fn consecutive_failures_in_window_then_removal() {
    let m = 3;
    let mut supervisor = SupervisorActor::with_config(RestartStrategy::OneForAll, m, 10_000);
    assert!(supervisor.add_child_with_factory_at(1, None, None, 1_000).is_ok());
    for t in 0..m as u64 {
        assert_eq!(supervisor.handle_child_failure_at(&1, 1_000 + t), Some(RestartStrategy::OneForAll));
        assert!(supervisor.contains_child(1));
    }
    assert_eq!(supervisor.handle_child_failure_at(&1, 2_000), None);
    assert!(!supervisor.contains_child(1));
    assert_eq!(supervisor.handle_child_failure_at(&1, 2_001), None);
    assert_eq!(supervisor.child_count(), 0);
}

#[test]
fn restart_child_uses_its_own_factory() {
    let mut supervisor = SupervisorActor::new();
    let calls_ok = Arc::new(AtomicUsize::new(0));
    let calls_bad = Arc::new(AtomicUsize::new(0));
    assert!(supervisor.add_child_with_factory(1, counting_factory(&calls_ok, true), None).is_ok());
    assert!(supervisor.add_child_with_factory(2, counting_factory(&calls_bad, false), None).is_ok());
    assert!(supervisor.add_child(3, None).is_ok());

    assert!(supervisor.restart_child(1));
    assert_eq!(calls_ok.load(Ordering::SeqCst), 1);
    assert_eq!(calls_bad.load(Ordering::SeqCst), 0);
    assert!(supervisor.contains_child(1));

    assert!(!supervisor.restart_child(2));
    assert_eq!(calls_bad.load(Ordering::SeqCst), 1);
    assert!(!supervisor.contains_child(2));

    assert!(!supervisor.restart_child(3));
    assert!(!supervisor.contains_child(3));

    assert!(!supervisor.restart_child(42));
    assert_eq!(supervisor.child_count(), 1);
}

#[test]
fn failures_after_window_expiry_open_a_new_window() {
    let mut supervisor = SupervisorActor::with_config(RestartStrategy::OneForOne, 2, 1000);
    assert!(supervisor.add_child_with_factory_at(1, None, None, 0).is_ok());
    assert_eq!(supervisor.handle_child_failure_at(&1, 100), Some(RestartStrategy::OneForOne));
    assert_eq!(supervisor.handle_child_failure_at(&1, 900), Some(RestartStrategy::OneForOne));
    // The window opened at 0 has run out: the count starts again at 5000.
    assert_eq!(supervisor.handle_child_failure_at(&1, 5000), Some(RestartStrategy::OneForOne));
    assert_eq!(supervisor.handle_child_failure_at(&1, 5500), Some(RestartStrategy::OneForOne));
    assert!(supervisor.contains_child(1));
    assert_eq!(supervisor.handle_child_failure_at(&1, 5900), None);
    assert!(!supervisor.contains_child(1));
}

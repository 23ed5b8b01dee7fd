use lit_bit_core::actor::lifecycle::{ActorTask, TaskAction, TaskEvent, TaskKind};
use lit_bit_core::actor::{ActorError, SupervisorMessage};

fn report_of(a: &TaskAction) -> Option<(String, ActorError)> {
    match a {
        TaskAction::Report(SupervisorMessage::ChildPanicked { id, error }) => Some((id.clone(), (**error).clone())),
        _ => None,
    }
}

#[test]
fn plain_task_runs_until_mailbox_closes() {
    let mut task = ActorTask::new(TaskKind::Plain, "plain".to_string());
    assert!(matches!(task.pending(), TaskAction::CallOnStart));
    assert!(matches!(task.step(TaskEvent::Started(Ok(()))), TaskAction::HandleNextMessage));
    assert!(matches!(task.step(TaskEvent::Handled(Ok(()))), TaskAction::HandleNextMessage));
    assert!(matches!(task.step(TaskEvent::MailboxClosed), TaskAction::CallOnStop));
    assert!(matches!(task.step(TaskEvent::Stopped(Ok(()))), TaskAction::Finish(Ok(()))));
    assert!(task.is_finished());
}

#[test]
fn plain_task_returns_start_and_stop_failures() {
    let mut task = ActorTask::new(TaskKind::Plain, "a".to_string());
    assert!(matches!(task.step(TaskEvent::Started(Err(ActorError::StartupFailure))), TaskAction::Finish(Err(ActorError::StartupFailure))));

    let mut task = ActorTask::new(TaskKind::Plain, "a".to_string());
    task.step(TaskEvent::Started(Ok(())));
    task.step(TaskEvent::MailboxClosed);
    assert!(matches!(task.step(TaskEvent::Stopped(Err(ActorError::ShutdownFailure))), TaskAction::Finish(Err(ActorError::ShutdownFailure))));
}

#[test]
fn panic_safe_task_reports_start_failure_and_returns_it() {
    let mut task = ActorTask::new(TaskKind::PanicSafe, "failing_startup_actor".to_string());
    let a = task.step(TaskEvent::Started(Err(ActorError::StartupFailure)));
    assert_eq!(report_of(&a), Some(("failing_startup_actor".to_string(), ActorError::StartupFailure)));
    assert!(matches!(task.step(TaskEvent::Reported), TaskAction::Finish(Err(ActorError::StartupFailure))));
}

#[test]
fn panic_safe_task_reports_panic_and_ends_successfully() {
    let mut task = ActorTask::new(TaskKind::PanicSafe, "test_actor".to_string());
    task.step(TaskEvent::Started(Ok(())));
    let panic = ActorError::Panic { message: Some("boom".to_string()), actor_id: Some("test_actor".to_string()) };
    let a = task.step(TaskEvent::Handled(Err(panic.clone())));
    assert_eq!(report_of(&a), Some(("test_actor".to_string(), panic)));
    assert!(matches!(task.step(TaskEvent::Reported), TaskAction::Finish(Ok(()))));
    // Nothing happens after the end.
    assert!(matches!(task.step(TaskEvent::Handled(Ok(()))), TaskAction::Finish(Ok(()))));
}

#[test]
fn panic_safe_task_ignores_stop_failure() {
    let mut task = ActorTask::new(TaskKind::PanicSafe, "x".to_string());
    task.step(TaskEvent::Started(Ok(())));
    task.step(TaskEvent::MailboxClosed);
    assert!(matches!(task.step(TaskEvent::Stopped(Err(ActorError::ShutdownFailure))), TaskAction::Finish(Ok(()))));
}

#[test]
fn restart_loop_restarts_after_failure() {
    let mut task = ActorTask::new(TaskKind::RestartLoop, "looping".to_string());
    assert!(matches!(task.pending(), TaskAction::CallOnRestart));
    assert!(matches!(task.step(TaskEvent::Restarted(Ok(()))), TaskAction::CallOnStart));
    assert!(matches!(task.step(TaskEvent::Started(Ok(()))), TaskAction::HandleNextMessage));
    let a = task.step(TaskEvent::Handled(Err(ActorError::Timeout)));
    assert_eq!(report_of(&a), Some(("looping".to_string(), ActorError::Timeout)));
    assert!(matches!(task.step(TaskEvent::Reported), TaskAction::CallOnCleanup));
    assert!(matches!(task.step(TaskEvent::CleanedUp), TaskAction::CallOnRestart));
    // A failed restart is reported, then a final cleanup ends the loop.
    let a = task.step(TaskEvent::Restarted(Err(ActorError::StartupFailure)));
    assert!(report_of(&a).is_some());
    assert!(matches!(task.step(TaskEvent::Reported), TaskAction::CallOnCleanup));
    assert!(matches!(task.step(TaskEvent::CleanedUp), TaskAction::Finish(Ok(()))));
}

#[test]
fn run_once_task_cleans_up_after_failure_but_not_after_failed_start() {
    let mut task = ActorTask::new(TaskKind::RunOnce, "once".to_string());
    task.step(TaskEvent::Started(Ok(())));
    assert!(report_of(&task.step(TaskEvent::Handled(Err(ActorError::MailboxClosed)))).is_some());
    assert!(matches!(task.step(TaskEvent::Reported), TaskAction::CallOnCleanup));
    assert!(matches!(task.step(TaskEvent::CleanedUp), TaskAction::Finish(Ok(()))));

    let mut task = ActorTask::new(TaskKind::RunOnce, "once".to_string());
    assert!(report_of(&task.step(TaskEvent::Started(Err(ActorError::StartupFailure)))).is_some());
    assert!(matches!(task.step(TaskEvent::Reported), TaskAction::Finish(Ok(()))));
}

#[test]
fn unexpected_events_change_nothing() {
    let mut task = ActorTask::new(TaskKind::Plain, "p".to_string());
    assert!(matches!(task.step(TaskEvent::CleanedUp), TaskAction::CallOnStart));
    assert!(matches!(task.step(TaskEvent::Reported), TaskAction::CallOnStart));
    assert!(!task.is_finished());
}

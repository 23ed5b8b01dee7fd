//! The decisions of the actor task loops, as a state machine.
//!
//! Each task loop (the plain message loop, the panic-safe loop, the in-place
//! restart loop and the run-once loop) alternates work that only a runtime
//! can do (call a lifecycle hook, await and handle the next message, tell
//! the supervisor) with decisions about what comes next. [`ActorTask`] holds
//! those decisions: the runtime performs the action it is given and hands
//! back what happened as a [`TaskEvent`].

use crate::actor::{ActorError, SupervisorMessage};
use vstd::prelude::*;

verus! {

/// How a task loop runs its actor.
#[derive(Debug, Clone, Copy, PartialEq, Eq, Structural)]
pub enum TaskKind {
    /// Start, handle messages until the mailbox closes, then stop; a failed
    /// start or stop is the task's result.
    Plain,
    /// As `Plain`, but a failed start or a failed (panicking) message is
    /// reported to the supervisor; after a failed message the task ends
    /// successfully, and the result of the stop hook is ignored.
    PanicSafe,
    /// Restart the actor in place after every failed message, reporting the
    /// failure and cleaning up first; a failed restart or start is reported
    /// and ends the loop after a final cleanup.
    RestartLoop,
    /// Run until the first failure, report it and clean up; the supervisor
    /// starts a new task.
    RunOnce,
}

/// What a task does once the supervisor has been told about a failure.
#[derive(Debug, PartialEq, Eq)]
pub enum AfterReport {
    /// End the task with this result.
    Finish(Result<(), ActorError>),
    /// Run the cleanup hook, then restart (`true`) or end (`false`).
    Cleanup(bool),
}

/// Where a task loop stands: what it waits for.
#[derive(Debug, PartialEq, Eq)]
pub enum TaskPhase {
    /// Waits for the result of the restart hook.
    Restarting,
    /// Waits for the result of the start hook.
    Starting,
    /// Waits for the next message to be handled, or for the mailbox to close.
    Receiving,
    /// Waits until the supervisor was told about the failure.
    Reporting(ActorError, AfterReport),
    /// Waits for the result of the stop hook.
    Stopping,
    /// Waits for the cleanup hook; then restarts (`true`) or ends (`false`).
    CleaningUp(bool),
    /// The task has ended with this result.
    Finished(Result<(), ActorError>),
}

/// What happened since the last action.
#[derive(Debug)]
pub enum TaskEvent {
    /// The restart hook returned.
    Restarted(Result<(), ActorError>),
    /// The start hook returned.
    Started(Result<(), ActorError>),
    /// A message was handled; `Err` when handling failed or panicked.
    Handled(Result<(), ActorError>),
    /// The mailbox closed: no message will come.
    MailboxClosed,
    /// The supervisor was told (or there is no supervisor to tell).
    Reported,
    /// The stop hook returned.
    Stopped(Result<(), ActorError>),
    /// The cleanup hook returned.
    CleanedUp,
}

/// What the runtime must do next.
#[derive(Debug)]
pub enum TaskAction {
    /// Call the actor's restart hook.
    CallOnRestart,
    /// Call the actor's start hook.
    CallOnStart,
    /// Await the next message and handle it.
    HandleNextMessage,
    /// Send this message to the supervisor.
    Report(SupervisorMessage<String>),
    /// Call the actor's stop hook.
    CallOnStop,
    /// Call the actor's cleanup hook.
    CallOnCleanup,
    /// End the task with this result.
    Finish(Result<(), ActorError>),
}

/// The phase a task of kind `kind` begins in.
pub open spec fn initial_phase(kind: TaskKind) -> TaskPhase {
    if kind == TaskKind::RestartLoop {
        TaskPhase::Restarting
    } else {
        TaskPhase::Starting
    }
}

/// The phase after a failed start.
pub open spec fn start_failed(kind: TaskKind, e: ActorError) -> TaskPhase {
    match kind {
        TaskKind::Plain => TaskPhase::Finished(Err(e)),
        TaskKind::PanicSafe => TaskPhase::Reporting(e, AfterReport::Finish(Err(e))),
        TaskKind::RestartLoop => TaskPhase::Reporting(e, AfterReport::Cleanup(false)),
        TaskKind::RunOnce => TaskPhase::Reporting(e, AfterReport::Finish(Ok(()))),
    }
}

/// The phase after a message failed.
pub open spec fn message_failed(kind: TaskKind, e: ActorError) -> TaskPhase {
    match kind {
        TaskKind::Plain => TaskPhase::Finished(Err(e)),
        TaskKind::PanicSafe => TaskPhase::Reporting(e, AfterReport::Finish(Ok(()))),
        TaskKind::RestartLoop => TaskPhase::Reporting(e, AfterReport::Cleanup(true)),
        TaskKind::RunOnce => TaskPhase::Reporting(e, AfterReport::Cleanup(false)),
    }
}

/// The phase after the mailbox closed.
pub open spec fn mailbox_closed(kind: TaskKind) -> TaskPhase {
    match kind {
        TaskKind::Plain | TaskKind::PanicSafe => TaskPhase::Stopping,
        TaskKind::RestartLoop | TaskKind::RunOnce => TaskPhase::CleaningUp(false),
    }
}

/// The phase a task of kind `kind` moves to from `phase` on `event`. An event
/// that does not answer what the phase waits for changes nothing.
pub open spec fn next_phase(kind: TaskKind, phase: TaskPhase, event: TaskEvent) -> TaskPhase {
    match phase {
        TaskPhase::Restarting => match event {
            TaskEvent::Restarted(Ok(())) => TaskPhase::Starting,
            TaskEvent::Restarted(Err(e)) => TaskPhase::Reporting(e, AfterReport::Cleanup(false)),
            _ => phase,
        },
        TaskPhase::Starting => match event {
            TaskEvent::Started(Ok(())) => TaskPhase::Receiving,
            TaskEvent::Started(Err(e)) => start_failed(kind, e),
            _ => phase,
        },
        TaskPhase::Receiving => match event {
            TaskEvent::Handled(Ok(())) => TaskPhase::Receiving,
            TaskEvent::Handled(Err(e)) => message_failed(kind, e),
            TaskEvent::MailboxClosed => mailbox_closed(kind),
            _ => phase,
        },
        TaskPhase::Reporting(_, then) => match event {
            TaskEvent::Reported => match then {
                AfterReport::Finish(r) => TaskPhase::Finished(r),
                AfterReport::Cleanup(restart) => TaskPhase::CleaningUp(restart),
            },
            _ => phase,
        },
        TaskPhase::Stopping => match event {
            TaskEvent::Stopped(r) => if kind == TaskKind::Plain {
                TaskPhase::Finished(r)
            } else {
                TaskPhase::Finished(Ok(()))
            },
            _ => phase,
        },
        TaskPhase::CleaningUp(restart) => match event {
            TaskEvent::CleanedUp => if restart {
                TaskPhase::Restarting
            } else {
                TaskPhase::Finished(Ok(()))
            },
            _ => phase,
        },
        TaskPhase::Finished(_) => phase,
    }
}

/// The action a task of actor `actor_id` asks for in `phase`.
pub open spec fn phase_action(actor_id: String, phase: TaskPhase) -> TaskAction {
    match phase {
        TaskPhase::Restarting => TaskAction::CallOnRestart,
        TaskPhase::Starting => TaskAction::CallOnStart,
        TaskPhase::Receiving => TaskAction::HandleNextMessage,
        TaskPhase::Reporting(e, _) => TaskAction::Report(
            SupervisorMessage::ChildPanicked { id: actor_id, error: Box::new(e) },
        ),
        TaskPhase::Stopping => TaskAction::CallOnStop,
        TaskPhase::CleaningUp(_) => TaskAction::CallOnCleanup,
        TaskPhase::Finished(r) => TaskAction::Finish(r),
    }
}

/// A copy of a hook's result.
fn clone_result(r: &Result<(), ActorError>) -> (c: Result<(), ActorError>)
    ensures
        c == *r,
{
    match r {
        Ok(u) => Ok(*u),
        Err(e) => Err(e.clone()),
    }
}

/// The decision state of one actor task loop.
pub struct ActorTask {
    kind: TaskKind,
    actor_id: String,
    phase: TaskPhase,
}

impl ActorTask {
    pub closed spec fn kind(&self) -> TaskKind {
        self.kind
    }

    /// Identifier under which failures are reported.
    pub closed spec fn actor_id(&self) -> String {
        self.actor_id
    }

    pub closed spec fn phase(&self) -> TaskPhase {
        self.phase
    }

    /// A task of kind `kind` for the actor `actor_id`, about to begin.
    pub fn new(kind: TaskKind, actor_id: String) -> (t: Self)
        ensures
            t.kind() == kind,
            t.actor_id() == actor_id,
            t.phase() == initial_phase(kind),
    {
        let phase = match kind {
            TaskKind::RestartLoop => TaskPhase::Restarting,
            _ => TaskPhase::Starting,
        };
        ActorTask { kind, actor_id, phase }
    }

    /// The action the task waits on.
    pub fn pending(&self) -> (a: TaskAction)
        ensures
            a == phase_action(self.actor_id(), self.phase()),
    {
        match &self.phase {
            TaskPhase::Restarting => TaskAction::CallOnRestart,
            TaskPhase::Starting => TaskAction::CallOnStart,
            TaskPhase::Receiving => TaskAction::HandleNextMessage,
            TaskPhase::Reporting(e, _) => TaskAction::Report(
                SupervisorMessage::ChildPanicked { id: self.actor_id.clone(), error: Box::new(e.clone()) },
            ),
            TaskPhase::Stopping => TaskAction::CallOnStop,
            TaskPhase::CleaningUp(_) => TaskAction::CallOnCleanup,
            TaskPhase::Finished(r) => TaskAction::Finish(clone_result(r)),
        }
    }

    /// Whether the task has ended.
    pub fn is_finished(&self) -> (r: bool)
        ensures
            r == (self.phase() is Finished),
    {
        match &self.phase {
            TaskPhase::Finished(_) => true,
            _ => false,
        }
    }

    /// Applies `event` and returns the next action.
    pub fn step(&mut self, event: TaskEvent) -> (a: TaskAction)
        ensures
            final(self).kind() == old(self).kind(),
            final(self).actor_id() == old(self).actor_id(),
            final(self).phase() == next_phase(old(self).kind(), old(self).phase(), event),
            a == phase_action(final(self).actor_id(), final(self).phase()),
    {
        let mut phase = TaskPhase::Starting;
        std::mem::swap(&mut phase, &mut self.phase);
        let kind = self.kind;
        let next = match phase {
            TaskPhase::Restarting => match event {
                TaskEvent::Restarted(Ok(())) => TaskPhase::Starting,
                TaskEvent::Restarted(Err(e)) => TaskPhase::Reporting(e, AfterReport::Cleanup(false)),
                _ => TaskPhase::Restarting,
            },
            TaskPhase::Starting => match event {
                TaskEvent::Started(Ok(())) => TaskPhase::Receiving,
                TaskEvent::Started(Err(e)) => match kind {
                    TaskKind::Plain => TaskPhase::Finished(Err(e)),
                    TaskKind::PanicSafe => {
                        let copy = e.clone();
                        TaskPhase::Reporting(e, AfterReport::Finish(Err(copy)))
                    },
                    TaskKind::RestartLoop => TaskPhase::Reporting(e, AfterReport::Cleanup(false)),
                    TaskKind::RunOnce => TaskPhase::Reporting(e, AfterReport::Finish(Ok(()))),
                },
                _ => TaskPhase::Starting,
            },
            TaskPhase::Receiving => match event {
                TaskEvent::Handled(Ok(())) => TaskPhase::Receiving,
                TaskEvent::Handled(Err(e)) => match kind {
                    TaskKind::Plain => TaskPhase::Finished(Err(e)),
                    TaskKind::PanicSafe => TaskPhase::Reporting(e, AfterReport::Finish(Ok(()))),
                    TaskKind::RestartLoop => TaskPhase::Reporting(e, AfterReport::Cleanup(true)),
                    TaskKind::RunOnce => TaskPhase::Reporting(e, AfterReport::Cleanup(false)),
                },
                TaskEvent::MailboxClosed => match kind {
                    TaskKind::Plain | TaskKind::PanicSafe => TaskPhase::Stopping,
                    TaskKind::RestartLoop | TaskKind::RunOnce => TaskPhase::CleaningUp(false),
                },
                _ => TaskPhase::Receiving,
            },
            TaskPhase::Reporting(e, then) => match event {
                TaskEvent::Reported => match then {
                    AfterReport::Finish(r) => TaskPhase::Finished(r),
                    AfterReport::Cleanup(restart) => TaskPhase::CleaningUp(restart),
                },
                _ => TaskPhase::Reporting(e, then),
            },
            TaskPhase::Stopping => match event {
                TaskEvent::Stopped(r) => match kind {
                    TaskKind::Plain => TaskPhase::Finished(r),
                    _ => TaskPhase::Finished(Ok(())),
                },
                _ => TaskPhase::Stopping,
            },
            TaskPhase::CleaningUp(restart) => match event {
                TaskEvent::CleanedUp => if restart {
                    TaskPhase::Restarting
                } else {
                    TaskPhase::Finished(Ok(()))
                },
                _ => TaskPhase::CleaningUp(restart),
            },
            TaskPhase::Finished(r) => TaskPhase::Finished(r),
        };
        self.phase = next;
        self.pending()
    }
}

/// A failed start ends the task, after at most a report to the supervisor
/// and a cleanup, without handling any message: a plain or panic-safe task
/// ends with the start error, the others end successfully.
pub proof fn lemma_failed_start_handles_nothing(kind: TaskKind, e: ActorError)
    ensures
        ({
            let p1 = next_phase(kind, TaskPhase::Starting, TaskEvent::Started(Err(e)));
            let p2 = next_phase(kind, p1, TaskEvent::Reported);
            let p3 = next_phase(kind, p2, TaskEvent::CleanedUp);
            &&& p1 !is Receiving && p2 !is Receiving && p3 !is Receiving
            &&& p3 == TaskPhase::Finished(
                if kind == TaskKind::Plain || kind == TaskKind::PanicSafe { Err(e) } else { Ok(()) },
            )
        }),
{
}

/// Every failed message of a task that reports failures is reported to the
/// supervisor next, under the task's actor identifier and with the failure.
pub proof fn lemma_failures_reach_supervisor(kind: TaskKind, actor_id: String, e: ActorError)
    requires
        kind != TaskKind::Plain,
    ensures
        phase_action(actor_id, next_phase(kind, TaskPhase::Receiving, TaskEvent::Handled(Err(e))))
            == TaskAction::Report(SupervisorMessage::ChildPanicked { id: actor_id, error: Box::new(e) }),
{
}

/// The restart loop comes back after a failed message: it reports the
/// failure, cleans up, restarts and starts the actor, and receives again.
pub proof fn lemma_restart_loop_recovers(e: ActorError)
    ensures
        ({
            let k = TaskKind::RestartLoop;
            let p1 = next_phase(k, TaskPhase::Receiving, TaskEvent::Handled(Err(e)));
            let p2 = next_phase(k, p1, TaskEvent::Reported);
            let p3 = next_phase(k, p2, TaskEvent::CleanedUp);
            let p4 = next_phase(k, p3, TaskEvent::Restarted(Ok(())));
            let p5 = next_phase(k, p4, TaskEvent::Started(Ok(())));
            &&& p1 is Reporting
            &&& p2 == TaskPhase::CleaningUp(true)
            &&& p3 == TaskPhase::Restarting
            &&& p4 == TaskPhase::Starting
            &&& p5 == TaskPhase::Receiving
        }),
{
}

/// A finished task stays finished, with the same result, whatever happens.
pub proof fn lemma_finished_is_final(kind: TaskKind, r: Result<(), ActorError>, event: TaskEvent)
    ensures
        next_phase(kind, TaskPhase::Finished(r), event) == TaskPhase::Finished(r),
{
}

/// Handled messages keep a task receiving.
pub proof fn lemma_handled_messages_keep_receiving(kind: TaskKind)
    ensures
        next_phase(kind, TaskPhase::Receiving, TaskEvent::Handled(Ok(()))) == TaskPhase::Receiving,
{
}

/// Once the mailbox closes, a task runs its stop or cleanup hook once and
/// ends: with the stop hook's result for a plain task, successfully otherwise.
pub proof fn lemma_closed_mailbox_ends_task(kind: TaskKind, stop: Result<(), ActorError>)
    ensures
        ({
            let p1 = next_phase(kind, TaskPhase::Receiving, TaskEvent::MailboxClosed);
            let p2 = if p1 == TaskPhase::Stopping {
                next_phase(kind, p1, TaskEvent::Stopped(stop))
            } else {
                next_phase(kind, p1, TaskEvent::CleanedUp)
            };
            &&& (p1 == TaskPhase::Stopping) == (kind == TaskKind::Plain || kind == TaskKind::PanicSafe)
            &&& p2 == TaskPhase::Finished(if kind == TaskKind::Plain { stop } else { Ok(()) })
        }),
{
}

} // verus!

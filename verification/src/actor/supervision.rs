//! Supervision of child actors with OTP-style restart strategies.
//!
//! A [`SupervisorActor`] keeps one record per child: its restart strategy,
//! the number of restarts inside the current rate-limiting window, the order
//! in which it was added (used by `RestForOne`), and an optional factory that
//! brings a fresh instance of the child up again.

use crate::actor::{ActorError, RestartStrategy, Supervisor, SupervisorMessage};
use vstd::prelude::*;

verus! {

/// Error types for supervisor operations.
#[derive(Debug, Clone, Copy, PartialEq, Eq, Structural)]
pub enum SupervisorError {
    /// Child capacity limit reached
    CapacityExceeded,
    /// A child with this ID already exists
    ChildAlreadyExists,
    /// No child with this ID
    ChildNotFound,
    /// Failed to restart the child actor
    RestartFailed,
}

/// Platform timer giving the supervisor monotonic milliseconds.
pub trait SupervisorTimer {
    /// Current monotonic time in milliseconds.
    fn current_time_ms() -> u64;
}

/// Something that can bring a fresh instance of a child actor up again.
pub trait ChildRestart {
    /// Spawn a new instance of the child; `Err` when that failed.
    fn restart(&self) -> Result<(), SupervisorError>;
}

/// Restart factory stored with each supervised child.
pub type RestartFactory = Box<dyn ChildRestart>;

/// A reading of the system clock.
#[verifier::external_type_specification]
#[verifier::external_body]
pub struct ExSystemTime(std::time::SystemTime);

/// Error of a clock reading before the Unix epoch.
#[verifier::external_type_specification]
#[verifier::external_body]
pub struct ExSystemTimeError(std::time::SystemTimeError);

/// The current system time.
///
/// Trusted: calls `std::time::SystemTime::now()`; nothing is stated of the
/// reading, which depends on the clock.
#[verifier::external_body]
fn system_now() -> std::time::SystemTime {
    std::time::SystemTime::now()
}

/// How long after the Unix epoch `t` lies.
///
/// Trusted: calls `SystemTime::duration_since(UNIX_EPOCH)`, which fails for
/// readings before the epoch; nothing is stated of the duration.
#[verifier::external_body]
fn since_unix_epoch(t: &std::time::SystemTime) -> Result<core::time::Duration, std::time::SystemTimeError> {
    t.duration_since(std::time::UNIX_EPOCH)
}

/// Whole milliseconds in `d`.
///
/// Trusted: calls `Duration::as_millis`; nothing is stated of the count.
#[verifier::external_body]
fn whole_millis(d: &core::time::Duration) -> u128 {
    d.as_millis()
}

/// Milliseconds since the Unix epoch by the system clock (truncated to
/// 64 bits), or zero when the clock reads before the epoch.
fn system_time_ms() -> u64 {
    let now = system_now();
    match since_unix_epoch(&now) {
        Ok(d) => whole_millis(&d) as u64,
        Err(_) => 0,
    }
}

/// Information about a supervised child actor.
struct ChildInfo {
    child_id: u32,
    restart_strategy: RestartStrategy,
    restart_count: usize,
    start_sequence: u64,
    window_start_ms: u64,
    is_running: bool,
    /// `None` stands for the no-op factory of children added without one,
    /// whose restart always fails with `SupervisorError::RestartFailed`.
    restart_factory: Option<RestartFactory>,
}

/// What the supervisor knows about one child.
pub struct ChildState {
    pub id: u32,
    pub strategy: RestartStrategy,
    pub restart_count: usize,
    pub start_sequence: u64,
    pub window_start_ms: u64,
    pub running: bool,
    pub has_factory: bool,
}

impl ChildInfo {
    spec fn state(&self) -> ChildState {
        ChildState {
            id: self.child_id,
            strategy: self.restart_strategy,
            restart_count: self.restart_count,
            start_sequence: self.start_sequence,
            window_start_ms: self.window_start_ms,
            running: self.is_running,
            has_factory: self.restart_factory is Some,
        }
    }
}

/// A supervisor actor that manages child actors with restart strategies.
pub struct SupervisorActor {
    children: Vec<ChildInfo>,
    default_restart_strategy: RestartStrategy,
    max_restarts: usize,
    restart_window_ms: u64,
    next_start_sequence: u64,
}

/// Index of the child with identifier `id`, or -1 when there is none.
pub open spec fn child_index(cs: Seq<ChildState>, id: u32) -> int {
    if exists|i: int| 0 <= i < cs.len() && (#[trigger] cs[i]).id == id {
        choose|i: int| 0 <= i < cs.len() && (#[trigger] cs[i]).id == id
    } else {
        -1
    }
}

/// Whether a child with identifier `id` is supervised.
pub open spec fn has_child(cs: Seq<ChildState>, id: u32) -> bool {
    exists|i: int| 0 <= i < cs.len() && (#[trigger] cs[i]).id == id
}

/// No two children share an identifier.
pub open spec fn ids_unique(cs: Seq<ChildState>) -> bool {
    forall|i: int, j: int| 0 <= i < cs.len() && 0 <= j < cs.len() && i != j ==> (#[trigger] cs[i]).id != (#[trigger] cs[j]).id
}

/// Identifiers, in supervision order, of the children whose start sequence
/// is at least `min_sequence`.
pub open spec fn ids_started_from(cs: Seq<ChildState>, min_sequence: u64) -> Seq<u32>
    decreases cs.len(),
{
    if cs.len() == 0 {
        Seq::empty()
    } else {
        let rest = ids_started_from(cs.drop_last(), min_sequence);
        if cs.last().start_sequence >= min_sequence {
            rest.push(cs.last().id)
        } else {
            rest
        }
    }
}

/// The children a failure of `failed` restarts under `strategy`.
pub open spec fn restart_targets(cs: Seq<ChildState>, failed: u32, strategy: RestartStrategy) -> Seq<u32> {
    match strategy {
        RestartStrategy::OneForOne | RestartStrategy::Permanent | RestartStrategy::Transient => seq![failed],
        RestartStrategy::OneForAll => ids_started_from(cs, 0),
        RestartStrategy::RestForOne => {
            if has_child(cs, failed) {
                ids_started_from(cs, cs[child_index(cs, failed)].start_sequence)
            } else {
                Seq::empty()
            }
        },
        _ => Seq::empty(),
    }
}

/// The child record after one more failure at time `now_ms`, before the
/// restart limit is applied: a failure after the window has elapsed opens a
/// new window at `now_ms`.
pub open spec fn failure_count_after(c: ChildState, now_ms: u64, window_ms: u64) -> int {
    if now_ms - c.window_start_ms > window_ms {
        1
    } else {
        c.restart_count + 1
    }
}

pub open spec fn window_start_after(c: ChildState, now_ms: u64, window_ms: u64) -> u64 {
    if now_ms - c.window_start_ms > window_ms {
        now_ms
    } else {
        c.window_start_ms
    }
}

/// The strategy a failure of `id` at `now_ms` asks for: `None` when the
/// child is unknown or the failure exceeds the restart limit.
pub open spec fn failure_decision(cs: Seq<ChildState>, id: u32, now_ms: u64, window_ms: u64, max_restarts: usize) -> Option<RestartStrategy> {
    let c = cs[child_index(cs, id)];
    if !has_child(cs, id) || failure_count_after(c, now_ms, window_ms) > max_restarts {
        None
    } else {
        Some(c.strategy)
    }
}

/// The children after a failure of `id` at `now_ms`: an unknown child changes
/// nothing, a child over the restart limit leaves supervision, any other
/// child gets its new restart count and window.
pub open spec fn failure_children(cs: Seq<ChildState>, id: u32, now_ms: u64, window_ms: u64, max_restarts: usize) -> Seq<ChildState> {
    let i = child_index(cs, id);
    let c = cs[i];
    let n = failure_count_after(c, now_ms, window_ms);
    if !has_child(cs, id) {
        cs
    } else if n > max_restarts {
        cs.remove(i)
    } else {
        cs.update(i, ChildState { restart_count: n as usize, window_start_ms: window_start_after(c, now_ms, window_ms), ..c })
    }
}

/// The children after adding `id` at `now_ms` with start sequence `sequence`,
/// or unchanged when `id` is already supervised.
pub open spec fn added_children(
    cs: Seq<ChildState>,
    id: u32,
    strategy: RestartStrategy,
    sequence: u64,
    now_ms: u64,
    has_factory: bool,
) -> Seq<ChildState> {
    if has_child(cs, id) {
        cs
    } else {
        cs.push(ChildState {
            id,
            strategy,
            restart_count: 0,
            start_sequence: sequence,
            window_start_ms: now_ms,
            running: true,
            has_factory,
        })
    }
}

/// The strategy a child added with `requested` gets under the default `default`.
pub open spec fn chosen_strategy(requested: Option<RestartStrategy>, default: RestartStrategy) -> RestartStrategy {
    match requested {
        Some(s) => s,
        None => default,
    }
}

/// The children after one restart attempt of `id` that ended with `succeeded`.
pub open spec fn restart_step(cs: Seq<ChildState>, id: u32, succeeded: bool) -> Seq<ChildState> {
    let i = child_index(cs, id);
    if i < 0 {
        cs
    } else if succeeded {
        cs.update(i, ChildState { running: true, ..cs[i] })
    } else {
        cs.remove(i)
    }
}

/// Whether `id` is supervised in `cs` and was given a restart factory: only
/// such a child can come back up; any other restart fails.
pub open spec fn restartable(cs: Seq<ChildState>, id: u32) -> bool {
    has_child(cs, id) && cs[child_index(cs, id)].has_factory
}

/// The children after restart attempts of `ids` with the outcomes `oks`.
pub open spec fn restart_all(cs: Seq<ChildState>, ids: Seq<u32>, oks: Seq<bool>) -> Seq<ChildState>
    decreases ids.len(),
{
    if ids.len() == 0 || oks.len() == 0 {
        cs
    } else {
        restart_step(restart_all(cs, ids.drop_last(), oks.drop_last()), ids.last(), oks.last())
    }
}

/// Number of successful restarts among the attempts of `ids` with outcomes `oks`.
pub open spec fn restarted_count(cs: Seq<ChildState>, ids: Seq<u32>, oks: Seq<bool>) -> nat
    decreases ids.len(),
{
    if ids.len() == 0 || oks.len() == 0 {
        0
    } else {
        let before = restart_all(cs, ids.drop_last(), oks.drop_last());
        restarted_count(cs, ids.drop_last(), oks.drop_last()) + if has_child(before, ids.last())
            && oks.last() {
            1nat
        } else {
            0nat
        }
    }
}

/// `after` and `count` are what restarting `ids` with the outcomes `oks` leaves,
/// where only a child that is supervised with a factory at its turn can have
/// come back up.
pub open spec fn restart_outcome(cs: Seq<ChildState>, ids: Seq<u32>, oks: Seq<bool>, after: Seq<ChildState>, count: nat) -> bool {
    &&& oks.len() == ids.len()
    &&& forall|k: int| 0 <= k < oks.len() && #[trigger] oks[k] ==> restartable(restart_all(cs, ids.take(k), oks.take(k)), ids[k])
    &&& after == restart_all(cs, ids, oks)
    &&& count == restarted_count(cs, ids, oks)
}

/// `after` is what adding `id` at `now_ms` does to `before`, with result `r`.
pub open spec fn added_at(
    before: SupervisorActor,
    after: SupervisorActor,
    id: u32,
    strategy: Option<RestartStrategy>,
    has_factory: bool,
    now_ms: u64,
    r: Result<(), SupervisorError>,
) -> bool {
    let exists = has_child(before.children(), id);
    &&& r == (if exists { Err::<(), SupervisorError>(SupervisorError::ChildAlreadyExists) } else { Ok(()) })
    &&& after.children() == added_children(
        before.children(),
        id,
        chosen_strategy(strategy, before.default_strategy()),
        before.next_start_sequence(),
        now_ms,
        has_factory,
    )
    &&& after.next_start_sequence() == before.next_start_sequence() + if exists { 0int } else { 1int }
    &&& after.default_strategy() == before.default_strategy()
    &&& after.max_restarts() == before.max_restarts()
    &&& after.restart_window_ms() == before.restart_window_ms()
}

/// `after` is what a failure of `id` at `now_ms` does to `before`, deciding `r`.
pub open spec fn failed_at(
    before: SupervisorActor,
    after: SupervisorActor,
    id: u32,
    now_ms: u64,
    r: Option<RestartStrategy>,
) -> bool {
    &&& r == failure_decision(before.children(), id, now_ms, before.restart_window_ms(), before.max_restarts())
    &&& after.children() == failure_children(before.children(), id, now_ms, before.restart_window_ms(), before.max_restarts())
    &&& after.next_start_sequence() == before.next_start_sequence()
    &&& after.default_strategy() == before.default_strategy()
    &&& after.max_restarts() == before.max_restarts()
    &&& after.restart_window_ms() == before.restart_window_ms()
}

/// `after` are the children once a failure of `id` at `now_ms` was counted
/// and the children its strategy names were restarted, with some outcome of
/// each restart.
pub open spec fn recovered_after_failure(before: SupervisorActor, after: Seq<ChildState>, id: u32, now_ms: u64) -> bool {
    let mid = failure_children(before.children(), id, now_ms, before.restart_window_ms(), before.max_restarts());
    match failure_decision(before.children(), id, now_ms, before.restart_window_ms(), before.max_restarts()) {
        Some(strategy) => exists|oks: Seq<bool>, count: nat| #[trigger] restart_outcome(mid, restart_targets(mid, id, strategy), oks, after, count),
        None => after == mid,
    }
}

/// The children after `id` is stopped: without it, or unchanged when it is
/// not supervised.
pub open spec fn stopped_children(cs: Seq<ChildState>, id: u32) -> Seq<ChildState> {
    if has_child(cs, id) {
        cs.remove(child_index(cs, id))
    } else {
        cs
    }
}

/// `after` is what handling `msg` at `now_ms` does to `before`.
pub open spec fn handled_at(before: SupervisorActor, after: SupervisorActor, msg: SupervisorMessage<u32>, now_ms: u64) -> bool {
    match msg {
        SupervisorMessage::ChildStarted { .. } | SupervisorMessage::ChildStopped { .. } => after.children() == before.children(),
        SupervisorMessage::StartChild { id } => after.children() == added_children(
            before.children(),
            id,
            before.default_strategy(),
            before.next_start_sequence(),
            now_ms,
            false,
        ),
        SupervisorMessage::StopChild { id } => after.children() == stopped_children(before.children(), id),
        SupervisorMessage::ChildPanicked { id, .. } | SupervisorMessage::RestartChild { id }
        | SupervisorMessage::ChildEscalated { supervisor_id: id, .. } => recovered_after_failure(before, after.children(), id, now_ms),
    }
}

/// What the supervisor knows about each of the child records `v`.
spec fn states(v: Seq<ChildInfo>) -> Seq<ChildState> {
    v.map_values(|c: ChildInfo| c.state())
}

proof fn lemma_child_index(cs: Seq<ChildState>, id: u32)
    requires
        ids_unique(cs),
    ensures
        has_child(cs, id) <==> 0 <= child_index(cs, id) < cs.len(),
        has_child(cs, id) ==> cs[child_index(cs, id)].id == id,
        !has_child(cs, id) ==> child_index(cs, id) == -1,
        forall|i: int| 0 <= i < cs.len() && (#[trigger] cs[i]).id == id ==> i == child_index(cs, id),
{
}

impl SupervisorActor {
    /// The supervised children, in the order they were added.
    pub closed spec fn children(&self) -> Seq<ChildState> {
        states(self.children@)
    }

    /// Moves the child records out, leaving the supervisor without children.
    fn take_children(&mut self) -> (v: Vec<ChildInfo>)
        ensures
            v@ == old(self).children@,
            final(self).children@ == Seq::<ChildInfo>::empty(),
            final(self).default_restart_strategy == old(self).default_restart_strategy,
            final(self).max_restarts == old(self).max_restarts,
            final(self).restart_window_ms == old(self).restart_window_ms,
            final(self).next_start_sequence == old(self).next_start_sequence,
    {
        let mut v = Vec::new();
        std::mem::swap(&mut v, &mut self.children);
        v
    }

    pub closed spec fn default_strategy(&self) -> RestartStrategy {
        self.default_restart_strategy
    }

    pub closed spec fn max_restarts(&self) -> usize {
        self.max_restarts
    }

    pub closed spec fn restart_window_ms(&self) -> u64 {
        self.restart_window_ms
    }

    pub closed spec fn next_start_sequence(&self) -> u64 {
        self.next_start_sequence
    }

    /// Children have distinct identifiers, strictly increasing start
    /// sequences below the next sequence number, and no more restarts in
    /// their window than the restart limit.
    pub open spec fn wf(&self) -> bool {
        let cs = self.children();
        &&& ids_unique(cs)
        &&& forall|i: int, j: int| 0 <= i < j < cs.len() ==> (#[trigger] cs[i]).start_sequence < (#[trigger] cs[j]).start_sequence
        &&& forall|i: int| 0 <= i < cs.len() ==> (#[trigger] cs[i]).start_sequence < self.next_start_sequence()
        &&& forall|i: int| 0 <= i < cs.len() ==> (#[trigger] cs[i]).restart_count <= self.max_restarts()
    }

    #[verifier::type_invariant]
    spec fn inv(&self) -> bool {
        self.wf()
    }

    /// Creates a supervisor with default settings: `OneForOne`, at most
    /// 5 restarts per child within a 60 second window.
    pub fn new() -> (s: Self)
        ensures
            s.wf(),
            s.children() == Seq::<ChildState>::empty(),
            s.default_strategy() == RestartStrategy::OneForOne,
            s.max_restarts() == 5,
            s.restart_window_ms() == 60_000,
            s.next_start_sequence() == 0,
    {
        SupervisorActor {
            children: Vec::new(),
            default_restart_strategy: RestartStrategy::OneForOne,
            max_restarts: 5,
            restart_window_ms: 60_000,
            next_start_sequence: 0,
        }
    }

    /// Creates a supervisor with a custom default strategy, restart limit and window.
    pub fn with_config(default_strategy: RestartStrategy, max_restarts: usize, restart_window_ms: u64) -> (s: Self)
        ensures
            s.wf(),
            s.children() == Seq::<ChildState>::empty(),
            s.default_strategy() == default_strategy,
            s.max_restarts() == max_restarts,
            s.restart_window_ms() == restart_window_ms,
            s.next_start_sequence() == 0,
    {
        SupervisorActor {
            children: Vec::new(),
            default_restart_strategy: default_strategy,
            max_restarts,
            restart_window_ms,
            next_start_sequence: 0,
        }
    }

    /// Default restart strategy for children added without one.
    pub fn default_restart_strategy(&self) -> (r: RestartStrategy)
        ensures
            r == self.default_strategy(),
    {
        proof {
            use_type_invariant(&*self);
        }
        self.default_restart_strategy
    }

    /// Maximum number of restarts per child within the window.
    pub fn restart_limit(&self) -> (r: usize)
        ensures
            r == self.max_restarts(),
    {
        proof {
            use_type_invariant(&*self);
        }
        self.max_restarts
    }

    /// Length of the restart-counting window in milliseconds.
    pub fn restart_window(&self) -> (r: u64)
        ensures
            r == self.restart_window_ms(),
    {
        proof {
            use_type_invariant(&*self);
        }
        self.restart_window_ms
    }

    /// Number of supervised children.
    pub fn child_count(&self) -> (r: usize)
        ensures
            r == self.children().len(),
    {
        proof {
            use_type_invariant(&*self);
        }
        self.children.len()
    }

    /// Position of the child `child_id` among the supervised children.
    fn find_child(&self, child_id: u32) -> (r: Option<usize>)
        ensures
            match r {
                Some(i) => i == child_index(self.children(), child_id) && has_child(self.children(), child_id),
                None => !has_child(self.children(), child_id),
            },
    {
        proof {
            use_type_invariant(&*self);
        }
        let ghost cs = self.children();
        proof {
            lemma_child_index(cs, child_id);
        }
        let mut i: usize = 0;
        while i < self.children.len()
            invariant
                i <= self.children@.len(),
                cs == self.children(),
                ids_unique(cs),
                forall|k: int| 0 <= k < i ==> (#[trigger] cs[k]).id != child_id,
            decreases self.children@.len() - i,
        {
            proof {
                assert(cs[i as int] == self.children@[i as int].state());
            }
            if self.children[i].child_id == child_id {
                return Some(i);
            }
            i = i + 1;
        }
        None
    }

    /// Whether the child `child_id` is supervised.
    pub fn contains_child(&self, child_id: u32) -> (r: bool)
        ensures
            r == has_child(self.children(), child_id),
    {
        proof {
            use_type_invariant(&*self);
        }
        self.find_child(child_id).is_some()
    }

    /// Adds a child with its restart factory at time `now_ms`.
    ///
    /// Fails with `ChildAlreadyExists`, changing nothing, when a child with
    /// this identifier is already supervised. Otherwise the child is
    /// appended with no restarts, the next start sequence number, the given
    /// strategy (or the supervisor's default), and a window opened at `now_ms`.
    pub fn add_child_with_factory_at(
        &mut self,
        child_id: u32,
        restart_factory: Option<RestartFactory>,
        restart_strategy: Option<RestartStrategy>,
        now_ms: u64,
    ) -> (r: Result<(), SupervisorError>)
        requires
            !has_child(old(self).children(), child_id) ==> old(self).next_start_sequence() < u64::MAX,
        ensures
            final(self).wf(),
            final(self).default_strategy() == old(self).default_strategy(),
            final(self).max_restarts() == old(self).max_restarts(),
            final(self).restart_window_ms() == old(self).restart_window_ms(),
            r == (if has_child(old(self).children(), child_id) {
                Err::<(), SupervisorError>(SupervisorError::ChildAlreadyExists)
            } else {
                Ok(())
            }),
            final(self).children() == added_children(
                old(self).children(),
                child_id,
                chosen_strategy(restart_strategy, old(self).default_strategy()),
                old(self).next_start_sequence(),
                now_ms,
                restart_factory is Some,
            ),
            final(self).next_start_sequence() == old(self).next_start_sequence() + if has_child(old(self).children(), child_id) {
                0int
            } else {
                1int
            },
    {
        proof {
            use_type_invariant(&*self);
        }
        if self.find_child(child_id).is_some() {
            return Err(SupervisorError::ChildAlreadyExists);
        }
        let strategy = match restart_strategy {
            Some(s) => s,
            None => self.default_restart_strategy,
        };
        let sequence = self.next_start_sequence;
        let info = ChildInfo {
            child_id,
            restart_strategy: strategy,
            restart_count: 0,
            start_sequence: sequence,
            window_start_ms: now_ms,
            is_running: true,
            restart_factory,
        };
        let ghost old_cs = self.children();
        self.next_start_sequence = sequence + 1;
        let mut children = self.take_children();
        children.push(info);
        proof {
            assert(states(children@) =~= old_cs.push(info.state()));
        }
        self.children = children;
        Ok(())
    }

    /// Removes the child `child_id`; `true` when it was supervised.
    pub fn remove_child(&mut self, child_id: &u32) -> (r: bool)
        ensures
            final(self).wf(),
            r == has_child(old(self).children(), *child_id),
            !has_child(final(self).children(), *child_id),
            r ==> final(self).children() == old(self).children().remove(child_index(old(self).children(), *child_id)),
            !r ==> final(self).children() == old(self).children(),
            final(self).default_strategy() == old(self).default_strategy(),
            final(self).max_restarts() == old(self).max_restarts(),
            final(self).restart_window_ms() == old(self).restart_window_ms(),
            final(self).next_start_sequence() == old(self).next_start_sequence(),
    {
        proof {
            use_type_invariant(&*self);
        }
        let ghost old_cs = self.children();
        match self.find_child(*child_id) {
            Some(i) => {
                let mut children = self.take_children();
                let _removed = children.remove(i);
                let ghost new_cs = states(children@);
                proof {
                    assert(new_cs =~= old_cs.remove(i as int));
                    lemma_child_index(old_cs, *child_id);
                    assert forall|k: int| 0 <= k < new_cs.len() implies (#[trigger] new_cs[k]).id != *child_id by {
                        if k < i {
                            assert(new_cs[k] == old_cs[k]);
                        } else {
                            assert(new_cs[k] == old_cs[k + 1]);
                        }
                    }
                }
                self.children = children;
                true
            },
            None => false,
        }
    }

    /// Records a failure of `child_id` at time `now_ms` and decides its restart.
    ///
    /// A failure after the restart window has elapsed opens a new window at
    /// `now_ms`. When the failure pushes the child's restart count above the
    /// limit, the child is removed from supervision and `None` is returned;
    /// otherwise the count is stored and the child's strategy returned.
    /// An unknown child gives `None` and changes nothing.
    pub fn handle_child_failure_at(&mut self, child_id: &u32, now_ms: u64) -> (r: Option<RestartStrategy>)
        ensures
            final(self).wf(),
            final(self).default_strategy() == old(self).default_strategy(),
            final(self).max_restarts() == old(self).max_restarts(),
            final(self).restart_window_ms() == old(self).restart_window_ms(),
            final(self).next_start_sequence() == old(self).next_start_sequence(),
            r == failure_decision(old(self).children(), *child_id, now_ms, old(self).restart_window_ms(), old(self).max_restarts()),
            final(self).children() == failure_children(old(self).children(), *child_id, now_ms, old(self).restart_window_ms(), old(self).max_restarts()),
    {
        proof {
            use_type_invariant(&*self);
        }
        let ghost cs = self.children();
        proof {
            lemma_child_index(cs, *child_id);
        }
        let i = match self.find_child(*child_id) {
            Some(i) => i,
            None => return None,
        };
        let mut children = self.take_children();
        let mut info = children.remove(i);
        proof {
            assert(states(children@) =~= cs.remove(i as int));
            assert(info.state() == cs[i as int]);
        }
        let elapsed = now_ms.saturating_sub(info.window_start_ms);
        if elapsed > self.restart_window_ms {
            info.restart_count = 0;
            info.window_start_ms = now_ms;
        }
        if info.restart_count >= self.max_restarts {
            self.children = children;
            return None;
        }
        info.restart_count = info.restart_count + 1;
        let strategy = info.restart_strategy;
        children.insert(i, info);
        proof {
            let updated = ChildState {
                restart_count: info.restart_count,
                window_start_ms: info.window_start_ms,
                ..cs[i as int]
            };
            assert(info.state() == updated);
            assert(states(children@) =~= cs.update(i as int, updated));
        }
        self.children = children;
        Some(strategy)
    }

    /// The children to restart after `failed_child_id` failed, under `strategy`.
    ///
    /// `OneForOne`, `Permanent` and `Transient` restart the failed child
    /// alone; `OneForAll` restarts every child; `RestForOne` restarts the
    /// failed child and every child added after it (nothing when the failed
    /// child is unknown); `Temporary`, `Escalate` and `Never` restart nothing.
    pub fn get_children_to_restart(&self, failed_child_id: &u32, strategy: RestartStrategy) -> (r: Vec<u32>)
        ensures
            r@ == restart_targets(self.children(), *failed_child_id, strategy),
    {
        proof {
            use_type_invariant(&*self);
        }
        match strategy {
            RestartStrategy::OneForOne | RestartStrategy::Permanent | RestartStrategy::Transient => {
                let mut v = Vec::new();
                v.push(*failed_child_id);
                v
            },
            RestartStrategy::OneForAll => self.ids_started_from(0),
            RestartStrategy::RestForOne => {
                proof {
                    lemma_child_index(self.children(), *failed_child_id);
                }
                match self.find_child(*failed_child_id) {
                    Some(i) => {
                        let sequence = self.children[i].start_sequence;
                        proof {
                            assert(self.children()[i as int].start_sequence == sequence);
                        }
                        self.ids_started_from(sequence)
                    },
                    None => Vec::new(),
                }
            },
            _ => Vec::new(),
        }
    }

    /// Identifiers of the children whose start sequence is at least `min_sequence`.
    fn ids_started_from(&self, min_sequence: u64) -> (r: Vec<u32>)
        ensures
            r@ == ids_started_from(self.children(), min_sequence),
    {
        proof {
            use_type_invariant(&*self);
        }
        let ghost cs = self.children();
        let mut out: Vec<u32> = Vec::new();
        let mut i: usize = 0;
        while i < self.children.len()
            invariant
                i <= self.children@.len(),
                cs == self.children(),
                out@ == ids_started_from(cs.take(i as int), min_sequence),
            decreases self.children@.len() - i,
        {
            proof {
                assert(cs.take(i + 1).drop_last() =~= cs.take(i as int));
                assert(cs[i as int] == self.children@[i as int].state());
            }
            if self.children[i].start_sequence >= min_sequence {
                out.push(self.children[i].child_id);
            }
            i = i + 1;
        }
        proof {
            assert(cs.take(i as int) =~= cs);
        }
        out
    }

    /// Whether another child can still be given a fresh start sequence number.
    pub fn start_sequence_available(&self) -> (r: bool)
        ensures
            r == (self.next_start_sequence() < u64::MAX),
    {
        proof {
            use_type_invariant(&*self);
        }
        self.next_start_sequence < u64::MAX
    }

    /// Applies the outcome of one restart attempt of `child_id`: a child that
    /// came back up is marked running, one whose restart failed leaves
    /// supervision. Returns whether the child was supervised and came back up.
    pub fn record_restart_outcome(&mut self, child_id: u32, succeeded: bool) -> (r: bool)
        ensures
            final(self).wf(),
            final(self).children() == restart_step(old(self).children(), child_id, succeeded),
            r == (has_child(old(self).children(), child_id) && succeeded),
            final(self).default_strategy() == old(self).default_strategy(),
            final(self).max_restarts() == old(self).max_restarts(),
            final(self).restart_window_ms() == old(self).restart_window_ms(),
            final(self).next_start_sequence() == old(self).next_start_sequence(),
    {
        proof {
            use_type_invariant(&*self);
        }
        let ghost cs = self.children();
        proof {
            lemma_child_index(cs, child_id);
        }
        let i = match self.find_child(child_id) {
            Some(i) => i,
            None => return false,
        };
        let mut children = self.take_children();
        let mut info = children.remove(i);
        proof {
            assert(states(children@) =~= cs.remove(i as int));
            assert(info.state() == cs[i as int]);
        }
        if succeeded {
            info.is_running = true;
            children.insert(i, info);
            proof {
                assert(states(children@) =~= cs.update(i as int, ChildState { running: true, ..cs[i as int] }));
            }
            self.children = children;
            true
        } else {
            self.children = children;
            false
        }
    }

    /// Restarts the child `child_id` through its restart factory and applies
    /// the outcome as [`Self::record_restart_outcome`] does. Returns whether
    /// it came back up: never for an unknown child or one without a factory;
    /// for any other, what its factory reports.
    pub fn restart_child(&mut self, child_id: u32) -> (r: bool)
        ensures
            final(self).wf(),
            final(self).children() == restart_step(old(self).children(), child_id, r),
            r ==> restartable(old(self).children(), child_id),
            final(self).default_strategy() == old(self).default_strategy(),
            final(self).max_restarts() == old(self).max_restarts(),
            final(self).restart_window_ms() == old(self).restart_window_ms(),
            final(self).next_start_sequence() == old(self).next_start_sequence(),
    {
        proof {
            use_type_invariant(&*self);
        }
        let outcome = match self.find_child(child_id) {
            Some(i) => {
                proof {
                    assert(self.children()[i as int] == self.children@[i as int].state());
                }
                match &self.children[i].restart_factory {
                    Some(factory) => factory.restart().is_ok(),
                    None => false,
                }
            },
            None => false,
        };
        let r = self.record_restart_outcome(child_id, outcome);
        proof {
            use_type_invariant(&*self);
        }
        r
    }

    /// Restarts the children that a failure of `failed_child_id` concerns under
    /// `strategy`, one after the other by [`Self::restart_child`]; returns how
    /// many came back up. Children whose restart fails leave supervision; a
    /// child that is unknown at its turn or has no factory always fails, and
    /// any other comes back up exactly when its factory reports success.
    pub fn execute_restarts(&mut self, failed_child_id: &u32, strategy: RestartStrategy) -> (r: usize)
        ensures
            final(self).wf(),
            exists|oks: Seq<bool>| #[trigger] restart_outcome(old(self).children(), restart_targets(old(self).children(), *failed_child_id, strategy), oks, final(self).children(), r as nat),
            final(self).default_strategy() == old(self).default_strategy(),
            final(self).max_restarts() == old(self).max_restarts(),
            final(self).restart_window_ms() == old(self).restart_window_ms(),
            final(self).next_start_sequence() == old(self).next_start_sequence(),
    {
        proof {
            use_type_invariant(&*self);
        }
        let ghost cs0 = self.children();
        let targets = self.get_children_to_restart(failed_child_id, strategy);
        let ghost ids = targets@;
        let ghost mut oks: Seq<bool> = Seq::empty();
        let mut count: usize = 0;
        let mut k: usize = 0;
        while k < targets.len()
            invariant
                k <= targets@.len(),
                ids == targets@,
                self.wf(),
                oks.len() == k,
                forall|j: int| 0 <= j < oks.len() && #[trigger] oks[j] ==> restartable(restart_all(cs0, ids.take(j), oks.take(j)), ids[j]),
                self.children() == restart_all(cs0, ids.take(k as int), oks),
                count == restarted_count(cs0, ids.take(k as int), oks),
                count <= k,
                self.default_strategy() == old(self).default_strategy(),
                self.max_restarts() == old(self).max_restarts(),
                self.restart_window_ms() == old(self).restart_window_ms(),
                self.next_start_sequence() == old(self).next_start_sequence(),
            decreases targets@.len() - k,
        {
            let id = targets[k];
            let ghost before = self.children();
            let restarted = self.restart_child(id);
            proof {
                let ids_next = ids.take(k + 1);
                let oks_next = oks.push(restarted);
                assert(ids_next.drop_last() =~= ids.take(k as int));
                assert(oks_next.drop_last() =~= oks);
                assert(ids_next.last() == id);
                assert(self.children() == restart_all(cs0, ids_next, oks_next));
                assert(restarted_count(cs0, ids_next, oks_next) == count + if restarted { 1nat } else { 0nat });
                assert(oks_next.take(k as int) =~= oks);
                assert forall|j: int| 0 <= j < oks_next.len() && #[trigger] oks_next[j] implies restartable(restart_all(cs0, ids.take(j), oks_next.take(j)), ids[j]) by {
                    if j < k {
                        assert(oks_next.take(j) =~= oks.take(j));
                        assert(oks_next[j] == oks[j]);
                    }
                }
                oks = oks_next;
            }
            if restarted {
                count = count + 1;
            }
            k = k + 1;
        }
        proof {
            assert(ids.take(k as int) =~= ids);
            assert(restart_outcome(cs0, ids, oks, self.children(), count as nat));
        }
        count
    }

    /// Adds a child with its restart factory, opening its restart window at
    /// the current time. See [`Self::add_child_with_factory_at`].
    pub fn add_child_with_factory(
        &mut self,
        child_id: u32,
        restart_factory: RestartFactory,
        restart_strategy: Option<RestartStrategy>,
    ) -> (r: Result<(), SupervisorError>)
        requires
            !has_child(old(self).children(), child_id) ==> old(self).next_start_sequence() < u64::MAX,
        ensures
            final(self).wf(),
            exists|now_ms: u64| #[trigger] added_at(*old(self), *final(self), child_id, restart_strategy, true, now_ms, r),
    {
        let now_ms = system_time_ms();
        let r = self.add_child_with_factory_at(child_id, Some(restart_factory), restart_strategy, now_ms);
        proof {
            assert(added_at(*old(self), *self, child_id, restart_strategy, true, now_ms, r));
        }
        r
    }

    /// Adds a child without a restart factory (its restarts always fail with
    /// `RestartFailed`), opening its restart window at the current time.
    pub fn add_child(&mut self, child_id: u32, restart_strategy: Option<RestartStrategy>) -> (r: Result<(), SupervisorError>)
        requires
            !has_child(old(self).children(), child_id) ==> old(self).next_start_sequence() < u64::MAX,
        ensures
            final(self).wf(),
            exists|now_ms: u64| #[trigger] added_at(*old(self), *final(self), child_id, restart_strategy, false, now_ms, r),
    {
        proof {
            use_type_invariant(&*self);
        }
        let now_ms = system_time_ms();
        let r = self.add_child_with_factory_at(child_id, None, restart_strategy, now_ms);
        proof {
            assert(added_at(*old(self), *self, child_id, restart_strategy, false, now_ms, r));
        }
        r
    }

    /// Records a failure of `child_id` at the current time and decides its
    /// restart. See [`Self::handle_child_failure_at`].
    pub fn handle_child_failure(&mut self, child_id: &u32) -> (r: Option<RestartStrategy>)
        ensures
            final(self).wf(),
            exists|now_ms: u64| #[trigger] failed_at(*old(self), *final(self), *child_id, now_ms, r),
    {
        proof {
            use_type_invariant(&*self);
        }
        let now_ms = system_time_ms();
        let r = self.handle_child_failure_at(child_id, now_ms);
        proof {
            assert(failed_at(*old(self), *self, *child_id, now_ms, r));
        }
        r
    }

    /// Handles a supervision message at time `now_ms`.
    ///
    /// Start and stop notifications change nothing; `StartChild` adds the
    /// child without a factory under the default strategy (a duplicate is
    /// ignored); `StopChild` removes it; `ChildPanicked` and `RestartChild`
    /// count a failure of the child and, unless it left supervision,
    /// restart the children its strategy names; `ChildEscalated` is handled
    /// as a failure of the escalating child supervisor.
    pub fn handle_message_at(&mut self, msg: SupervisorMessage<u32>, now_ms: u64)
        requires
            msg matches SupervisorMessage::StartChild { id } && !has_child(old(self).children(), id) ==> old(self).next_start_sequence() < u64::MAX,
        ensures
            final(self).wf(),
            final(self).default_strategy() == old(self).default_strategy(),
            final(self).max_restarts() == old(self).max_restarts(),
            final(self).restart_window_ms() == old(self).restart_window_ms(),
            match msg {
                SupervisorMessage::ChildStarted { .. } | SupervisorMessage::ChildStopped { .. } => {
                    final(self).children() == old(self).children()
                },
                SupervisorMessage::StartChild { id } => final(self).children() == added_children(
                    old(self).children(),
                    id,
                    old(self).default_strategy(),
                    old(self).next_start_sequence(),
                    now_ms,
                    false,
                ),
                SupervisorMessage::StopChild { id } => final(self).children() == stopped_children(old(self).children(), id),
                SupervisorMessage::ChildPanicked { id, .. } | SupervisorMessage::RestartChild { id }
                | SupervisorMessage::ChildEscalated { supervisor_id: id, .. } => {
                    recovered_after_failure(*old(self), final(self).children(), id, now_ms)
                },
            },
    {
        proof {
            use_type_invariant(&*self);
        }
        match msg {
            SupervisorMessage::ChildStarted { .. } => {},
            SupervisorMessage::ChildStopped { .. } => {},
            SupervisorMessage::StartChild { id } => {
                let _ = self.add_child_with_factory_at(id, None, None, now_ms);
            },
            SupervisorMessage::StopChild { id } => {
                let _ = self.remove_child(&id);
            },
            SupervisorMessage::ChildPanicked { id, .. } => {
                self.fail_and_restart(id, now_ms);
            },
            SupervisorMessage::RestartChild { id } => {
                self.fail_and_restart(id, now_ms);
            },
            SupervisorMessage::ChildEscalated { supervisor_id, .. } => {
                self.fail_and_restart(supervisor_id, now_ms);
            },
        }
    }

    /// Handles a supervision message at the current time.
    /// See [`Self::handle_message_at`].
    pub fn handle_message(&mut self, msg: SupervisorMessage<u32>)
        requires
            msg matches SupervisorMessage::StartChild { id } && !has_child(old(self).children(), id) ==> old(self).next_start_sequence() < u64::MAX,
        ensures
            final(self).wf(),
            exists|now_ms: u64| #[trigger] handled_at(*old(self), *final(self), msg, now_ms),
    {
        proof {
            use_type_invariant(&*self);
        }
        let ghost m = msg;
        let now_ms = system_time_ms();
        self.handle_message_at(msg, now_ms);
        proof {
            assert(handled_at(*old(self), *self, m, now_ms));
        }
    }

    /// Counts a failure of `id` at `now_ms` and restarts what its strategy names.
    fn fail_and_restart(&mut self, id: u32, now_ms: u64)
        ensures
            final(self).wf(),
            recovered_after_failure(*old(self), final(self).children(), id, now_ms),
            final(self).default_strategy() == old(self).default_strategy(),
            final(self).max_restarts() == old(self).max_restarts(),
            final(self).restart_window_ms() == old(self).restart_window_ms(),
            final(self).next_start_sequence() == old(self).next_start_sequence(),
    {
        proof {
            use_type_invariant(&*self);
        }
        match self.handle_child_failure_at(&id, now_ms) {
            Some(strategy) => {
                let ghost mid = self.children();
                let n = self.execute_restarts(&id, strategy);
                proof {
                    let ids = restart_targets(mid, id, strategy);
                    let oks = choose|oks: Seq<bool>| #[trigger] restart_outcome(mid, ids, oks, self.children(), n as nat);
                    assert(restart_outcome(mid, ids, oks, self.children(), n as nat));
                }
            },
            None => {},
        }
    }
}

impl Default for SupervisorActor {
    /// A supervisor with the default settings of [`SupervisorActor::new`].
    fn default() -> (s: Self)
        ensures
            s.wf(),
            s.children() == Seq::<ChildState>::empty(),
            s.default_strategy() == RestartStrategy::OneForOne,
            s.max_restarts() == 5,
            s.restart_window_ms() == 60_000,
            s.next_start_sequence() == 0,
    {
        SupervisorActor::new()
    }
}

impl Supervisor for SupervisorActor {
    type ChildId = u32;

    /// Counts a failure of the child at the current time; the strategy it
    /// asks for, or `OneForOne` when the child is unknown or left supervision.
    fn on_child_failure(&mut self, child_id: u32) -> (r: RestartStrategy)
        ensures
            final(self).wf(),
            exists|now_ms: u64, d: Option<RestartStrategy>| #[trigger] failed_at(*old(self), *final(self), child_id, now_ms, d) && r == match d {
                Some(s) => s,
                None => RestartStrategy::OneForOne,
            },
    {
        match self.handle_child_failure(&child_id) {
            Some(s) => s,
            None => RestartStrategy::OneForOne,
        }
    }
}

/// The identifiers `ids_started_from(cs, min)` lists are exactly those of the
/// children started at or after `min`, each once when identifiers are unique.
pub proof fn lemma_ids_started_from(cs: Seq<ChildState>, min_sequence: u64)
    ensures
        forall|x: u32| #[trigger] ids_started_from(cs, min_sequence).contains(x) <==> exists|i: int| 0 <= i < cs.len() && (#[trigger] cs[i]).id == x && cs[i].start_sequence >= min_sequence,
        ids_unique(cs) ==> ids_started_from(cs, min_sequence).no_duplicates(),
    decreases cs.len(),
{
    if cs.len() > 0 {
        let prefix = cs.drop_last();
        lemma_ids_started_from(prefix, min_sequence);
        let rest = ids_started_from(prefix, min_sequence);
        assert forall|x: u32| #[trigger] ids_started_from(cs, min_sequence).contains(x) <==> exists|i: int| 0 <= i < cs.len() && (#[trigger] cs[i]).id == x && cs[i].start_sequence >= min_sequence by {
            if ids_started_from(cs, min_sequence).contains(x) {
                if rest.contains(x) {
                    let i = choose|i: int| 0 <= i < prefix.len() && (#[trigger] prefix[i]).id == x && prefix[i].start_sequence >= min_sequence;
                    assert(cs[i] == prefix[i]);
                } else {
                    assert(cs[cs.len() - 1] == cs.last());
                }
            }
            if exists|i: int| 0 <= i < cs.len() && (#[trigger] cs[i]).id == x && cs[i].start_sequence >= min_sequence {
                let i = choose|i: int| 0 <= i < cs.len() && (#[trigger] cs[i]).id == x && cs[i].start_sequence >= min_sequence;
                if i < cs.len() - 1 {
                    assert(prefix[i] == cs[i]);
                    assert(rest.contains(x));
                    if cs.last().start_sequence >= min_sequence {
                        assert(rest.push(cs.last().id)[rest.index_of(x)] == x);
                    }
                } else {
                    assert(ids_started_from(cs, min_sequence) == rest.push(cs.last().id));
                    assert(ids_started_from(cs, min_sequence)[rest.len() as int] == x);
                }
            }
        }
        if ids_unique(cs) {
            assert(ids_unique(prefix)) by {
                assert forall|i: int, j: int| 0 <= i < prefix.len() && 0 <= j < prefix.len() && i != j implies (#[trigger] prefix[i]).id != (#[trigger] prefix[j]).id by {
                    assert(prefix[i] == cs[i] && prefix[j] == cs[j]);
                }
            }
            if cs.last().start_sequence >= min_sequence {
                assert(!rest.contains(cs.last().id)) by {
                    if rest.contains(cs.last().id) {
                        let i = choose|i: int| 0 <= i < prefix.len() && (#[trigger] prefix[i]).id == cs.last().id && prefix[i].start_sequence >= min_sequence;
                        assert(cs[i] == prefix[i]);
                        assert(cs[cs.len() - 1] == cs.last());
                    }
                }
                let full = rest.push(cs.last().id);
                assert forall|a: int, b: int| 0 <= a < full.len() && 0 <= b < full.len() && a != b implies full[a] != full[b] by {
                    if a < rest.len() && b < rest.len() {
                        assert(full[a] == rest[a] && full[b] == rest[b]);
                    } else if a < rest.len() {
                        assert(full[a] == rest[a]);
                        assert(rest.contains(rest[a]));
                    } else if b < rest.len() {
                        assert(full[b] == rest[b]);
                        assert(rest.contains(rest[b]));
                    }
                }
            }
        }
    }
}

/// `RestForOne` restarts exactly the failed child and the children added
/// after it, each once.
pub proof fn lemma_rest_for_one_targets(s: SupervisorActor, failed: u32)
    requires
        s.wf(),
        has_child(s.children(), failed),
    ensures
        ({
            let cs = s.children();
            let targets = restart_targets(cs, failed, RestartStrategy::RestForOne);
            &&& targets.contains(failed)
            &&& targets.no_duplicates()
            &&& forall|x: u32| #[trigger] targets.contains(x) <==> exists|i: int| 0 <= i < cs.len() && (#[trigger] cs[i]).id == x && i >= child_index(cs, failed)
        }),
{
    let cs = s.children();
    lemma_child_index(cs, failed);
    let k = child_index(cs, failed);
    let min = cs[k].start_sequence;
    lemma_ids_started_from(cs, min);
    assert forall|x: u32| #[trigger] restart_targets(cs, failed, RestartStrategy::RestForOne).contains(x) <==> exists|i: int| 0 <= i < cs.len() && (#[trigger] cs[i]).id == x && i >= k by {
        if exists|i: int| 0 <= i < cs.len() && (#[trigger] cs[i]).id == x && cs[i].start_sequence >= min {
            let i = choose|i: int| 0 <= i < cs.len() && (#[trigger] cs[i]).id == x && cs[i].start_sequence >= min;
            if i < k {
                assert(cs[i].start_sequence < cs[k].start_sequence);
            }
        }
        if exists|i: int| 0 <= i < cs.len() && (#[trigger] cs[i]).id == x && i >= k {
            let i = choose|i: int| 0 <= i < cs.len() && (#[trigger] cs[i]).id == x && i >= k;
            if i > k {
                assert(cs[k].start_sequence < cs[i].start_sequence);
            }
            assert(cs[i].start_sequence >= min);
        }
    }
    assert(cs[k].id == failed);
}

/// Under `OneForOne`, `Permanent` and `Transient` a failure restarts the
/// failed child and nothing else; under `Temporary`, `Escalate` and `Never`
/// it restarts nothing.
pub proof fn lemma_single_child_targets(cs: Seq<ChildState>, failed: u32, strategy: RestartStrategy)
    ensures
        strategy is OneForOne || strategy is Permanent || strategy is Transient ==> {
            let targets = restart_targets(cs, failed, strategy);
            &&& targets.len() == 1
            &&& targets[0] == failed
        },
        strategy is Temporary || strategy is Escalate || strategy is Never ==> restart_targets(cs, failed, strategy).len() == 0,
{
}

/// A supervised child that fails is itself among the children restarted,
/// under every strategy but `Temporary`, `Escalate` and `Never`.
pub proof fn lemma_failed_child_is_restarted(s: SupervisorActor, failed: u32, strategy: RestartStrategy)
    requires
        s.wf(),
        has_child(s.children(), failed),
        !(strategy is Temporary || strategy is Escalate || strategy is Never),
    ensures
        restart_targets(s.children(), failed, strategy).contains(failed),
{
    let cs = s.children();
    match strategy {
        RestartStrategy::OneForAll => {
            lemma_one_for_all_targets(s, failed);
        },
        RestartStrategy::RestForOne => {
            lemma_rest_for_one_targets(s, failed);
        },
        _ => {
            assert(restart_targets(cs, failed, strategy)[0] == failed);
        },
    }
}

/// `OneForAll` restarts every supervised child, each once.
pub proof fn lemma_one_for_all_targets(s: SupervisorActor, failed: u32)
    requires
        s.wf(),
    ensures
        ({
            let cs = s.children();
            let targets = restart_targets(cs, failed, RestartStrategy::OneForAll);
            &&& targets.no_duplicates()
            &&& forall|x: u32| #[trigger] targets.contains(x) <==> has_child(cs, x)
        }),
{
    let cs = s.children();
    lemma_ids_started_from(cs, 0);
}

/// No supervised child has more restarts in its current window than the
/// supervisor's restart limit.
pub proof fn lemma_restart_count_bounded(s: SupervisorActor, i: int)
    requires
        s.wf(),
        0 <= i < s.children().len(),
    ensures
        s.children()[i].restart_count <= s.max_restarts(),
{
}

/// A child that already used up its restarts within the current window
/// leaves supervision on its next failure, and no strategy is returned.
pub proof fn lemma_failure_over_limit_removes(s: SupervisorActor, id: u32, now_ms: u64)
    requires
        s.wf(),
        has_child(s.children(), id),
        s.children()[child_index(s.children(), id)].restart_count == s.max_restarts(),
        now_ms - s.children()[child_index(s.children(), id)].window_start_ms <= s.restart_window_ms(),
    ensures
        failure_decision(s.children(), id, now_ms, s.restart_window_ms(), s.max_restarts()) is None,
        !has_child(failure_children(s.children(), id, now_ms, s.restart_window_ms(), s.max_restarts()), id),
{
    let cs = s.children();
    lemma_child_index(cs, id);
    let k = child_index(cs, id);
    let after = cs.remove(k);
    assert forall|j: int| 0 <= j < after.len() implies (#[trigger] after[j]).id != id by {
        if j < k {
            assert(after[j] == cs[j]);
        } else {
            assert(after[j] == cs[j + 1]);
        }
    }
}

/// The children after failures of `id` at the times `times`, one after another.
pub open spec fn after_failures(cs: Seq<ChildState>, id: u32, times: Seq<u64>, window_ms: u64, max_restarts: usize) -> Seq<ChildState>
    decreases times.len(),
{
    if times.len() == 0 {
        cs
    } else {
        failure_children(after_failures(cs, id, times.drop_last(), window_ms, max_restarts), id, times.last(), window_ms, max_restarts)
    }
}

proof fn lemma_after_failures(cs: Seq<ChildState>, id: u32, times: Seq<u64>, window_ms: u64, max_restarts: usize)
    requires
        ids_unique(cs),
        has_child(cs, id),
        cs[child_index(cs, id)].restart_count + times.len() <= max_restarts,
        forall|j: int| 0 <= j < times.len() ==> #[trigger] times[j] - cs[child_index(cs, id)].window_start_ms <= window_ms,
    ensures
        ({
            let k = child_index(cs, id);
            let after = after_failures(cs, id, times, window_ms, max_restarts);
            &&& ids_unique(after)
            &&& has_child(after, id)
            &&& child_index(after, id) == k
            &&& after.len() == cs.len()
            &&& after[k] == ChildState { restart_count: (cs[k].restart_count + times.len()) as usize, ..cs[k] }
            &&& forall|j: int| 0 <= j < times.len() ==> failure_decision(
                #[trigger] after_failures(cs, id, times.take(j), window_ms, max_restarts),
                id,
                times[j],
                window_ms,
                max_restarts,
            ) == Some(cs[k].strategy)
        }),
    decreases times.len(),
{
    lemma_child_index(cs, id);
    let k = child_index(cs, id);
    if times.len() == 0 {
        assert(cs[k] == ChildState { restart_count: cs[k].restart_count, ..cs[k] });
    } else {
        let prev = times.drop_last();
        assert forall|j: int| 0 <= j < prev.len() implies #[trigger] prev[j] - cs[k].window_start_ms <= window_ms by {
            assert(prev[j] == times[j]);
        }
        lemma_after_failures(cs, id, prev, window_ms, max_restarts);
        let before = after_failures(cs, id, prev, window_ms, max_restarts);
        lemma_child_index(before, id);
        let t = times.last();
        assert(t == times[times.len() - 1]);
        let c = before[k];
        let updated = ChildState { restart_count: (c.restart_count + 1) as usize, window_start_ms: c.window_start_ms, ..c };
        let after = before.update(k, updated);
        assert(after == after_failures(cs, id, times, window_ms, max_restarts));
        assert(ids_unique(after)) by {
            assert forall|a: int, b: int| 0 <= a < after.len() && 0 <= b < after.len() && a != b implies (#[trigger] after[a]).id != (#[trigger] after[b]).id by {
                assert(after[a].id == before[a].id && after[b].id == before[b].id);
            }
        }
        assert(after[k].id == id);
        lemma_child_index(after, id);
        assert forall|j: int| 0 <= j < times.len() implies failure_decision(
            #[trigger] after_failures(cs, id, times.take(j), window_ms, max_restarts),
            id,
            times[j],
            window_ms,
            max_restarts,
        ) == Some(cs[k].strategy) by {
            if j < prev.len() {
                assert(times.take(j) =~= prev.take(j));
                assert(times[j] == prev[j]);
            } else {
                assert(times.take(j) =~= prev);
            }
        }
        assert(after[k] == ChildState { restart_count: (cs[k].restart_count + times.len()) as usize, ..cs[k] });
    }
}

/// Within one restart window, a supervised child is restarted on every
/// failure until it has used up the restart limit: each of the failures at
/// `times` (all within the child's current window) returns the child's
/// strategy and keeps it supervised with one restart more; once the count
/// reaches the limit, the next failure in the window returns nothing and
/// removes the child.
pub proof fn lemma_failures_within_window(s: SupervisorActor, id: u32, times: Seq<u64>, next: u64)
    requires
        s.wf(),
        has_child(s.children(), id),
        s.children()[child_index(s.children(), id)].restart_count + times.len() <= s.max_restarts(),
        forall|j: int| 0 <= j < times.len() ==> #[trigger] times[j] - s.children()[child_index(s.children(), id)].window_start_ms <= s.restart_window_ms(),
        next - s.children()[child_index(s.children(), id)].window_start_ms <= s.restart_window_ms(),
    ensures
        ({
            let cs = s.children();
            let k = child_index(cs, id);
            let w = s.restart_window_ms();
            let m = s.max_restarts();
            let after = after_failures(cs, id, times, w, m);
            &&& forall|j: int| 0 <= j < times.len() ==> failure_decision(
                #[trigger] after_failures(cs, id, times.take(j), w, m),
                id,
                times[j],
                w,
                m,
            ) == Some(cs[k].strategy)
            &&& has_child(after, id)
            &&& after[child_index(after, id)].restart_count == cs[k].restart_count + times.len()
            &&& cs[k].restart_count + times.len() == m ==> {
                &&& failure_decision(after, id, next, w, m) is None
                &&& !has_child(failure_children(after, id, next, w, m), id)
            }
        }),
{
    let cs = s.children();
    let w = s.restart_window_ms();
    let m = s.max_restarts();
    lemma_after_failures(cs, id, times, w, m);
    let k = child_index(cs, id);
    let after = after_failures(cs, id, times, w, m);
    if cs[k].restart_count + times.len() == m {
        lemma_child_index(after, id);
        let rest = after.remove(k);
        assert forall|j: int| 0 <= j < rest.len() implies (#[trigger] rest[j]).id != id by {
            if j < k {
                assert(rest[j] == after[j]);
            } else {
                assert(rest[j] == after[j + 1]);
            }
        }
    }
}

/// Failures at `a` then at `b` leave what the failures at `a + b` leave.
proof fn lemma_after_failures_split(cs: Seq<ChildState>, id: u32, a: Seq<u64>, b: Seq<u64>, window_ms: u64, max_restarts: usize)
    ensures
        after_failures(cs, id, a + b, window_ms, max_restarts) == after_failures(
            after_failures(cs, id, a, window_ms, max_restarts),
            id,
            b,
            window_ms,
            max_restarts,
        ),
    decreases b.len(),
{
    if b.len() == 0 {
        assert(a + b =~= a);
    } else {
        lemma_after_failures_split(cs, id, a, b.drop_last(), window_ms, max_restarts);
        assert((a + b).drop_last() =~= a + b.drop_last());
        assert((a + b).last() == b.last());
    }
}

/// Once a child's restart window has run out, its next failure opens a new
/// window at that failure's time. From then on the child is restarted on
/// every failure within the new window until it has used up the restart
/// limit: each of the failures at `times` returns the child's strategy and
/// keeps it supervised; once they number the limit, the next failure in the
/// new window returns nothing and removes the child.
pub proof fn lemma_failures_in_new_window(s: SupervisorActor, id: u32, times: Seq<u64>, next: u64)
    requires
        s.wf(),
        has_child(s.children(), id),
        0 < times.len() <= s.max_restarts(),
        times[0] - s.children()[child_index(s.children(), id)].window_start_ms > s.restart_window_ms(),
        forall|j: int| 0 <= j < times.len() ==> #[trigger] times[j] - times[0] <= s.restart_window_ms(),
        next - times[0] <= s.restart_window_ms(),
    ensures
        ({
            let cs = s.children();
            let k = child_index(cs, id);
            let w = s.restart_window_ms();
            let m = s.max_restarts();
            let after = after_failures(cs, id, times, w, m);
            &&& forall|j: int| 0 <= j < times.len() ==> failure_decision(
                #[trigger] after_failures(cs, id, times.take(j), w, m),
                id,
                times[j],
                w,
                m,
            ) == Some(cs[k].strategy)
            &&& has_child(after, id)
            &&& after[child_index(after, id)].restart_count == times.len()
            &&& after[child_index(after, id)].window_start_ms == times[0]
            &&& times.len() == m ==> {
                &&& failure_decision(after, id, next, w, m) is None
                &&& !has_child(failure_children(after, id, next, w, m), id)
            }
        }),
{
    let cs = s.children();
    let w = s.restart_window_ms();
    let m = s.max_restarts();
    lemma_child_index(cs, id);
    let k = child_index(cs, id);
    let t0 = times[0];
    let first = times.take(1);
    let rest = times.drop_first();
    let c1 = ChildState { restart_count: 1usize, window_start_ms: t0, ..cs[k] };
    let cs1 = cs.update(k, c1);
    assert(after_failures(cs, id, first.drop_last(), w, m) == cs) by {
        assert(first.drop_last() =~= Seq::<u64>::empty());
    }
    assert(first.last() == t0);
    assert(after_failures(cs, id, first, w, m) == cs1);
    assert(ids_unique(cs1)) by {
        assert forall|a: int, b: int| 0 <= a < cs1.len() && 0 <= b < cs1.len() && a != b implies (#[trigger] cs1[a]).id != (#[trigger] cs1[b]).id by {
            assert(cs1[a].id == cs[a].id && cs1[b].id == cs[b].id);
        }
    }
    assert(cs1[k].id == id);
    lemma_child_index(cs1, id);
    assert forall|j: int| 0 <= j < rest.len() implies #[trigger] rest[j] - cs1[child_index(cs1, id)].window_start_ms <= w by {
        assert(rest[j] == times[j + 1]);
    }
    lemma_after_failures(cs1, id, rest, w, m);
    assert(first + rest =~= times);
    lemma_after_failures_split(cs, id, first, rest, w, m);
    let after = after_failures(cs, id, times, w, m);
    assert forall|j: int| 0 <= j < times.len() implies failure_decision(
        #[trigger] after_failures(cs, id, times.take(j), w, m),
        id,
        times[j],
        w,
        m,
    ) == Some(cs[k].strategy) by {
        if j == 0 {
            assert(times.take(0) =~= Seq::<u64>::empty());
        } else {
            assert(first + rest.take(j - 1) =~= times.take(j));
            lemma_after_failures_split(cs, id, first, rest.take(j - 1), w, m);
            assert(rest[j - 1] == times[j]);
        }
    }
    if times.len() == m {
        lemma_child_index(after, id);
        let kept = after.remove(k);
        assert forall|j: int| 0 <= j < kept.len() implies (#[trigger] kept[j]).id != id by {
            if j < k {
                assert(kept[j] == after[j]);
            } else {
                assert(kept[j] == after[j + 1]);
            }
        }
    }
}

/// A failure of a child that is not supervised decides nothing and changes nothing.
pub proof fn lemma_failure_of_unknown_child(cs: Seq<ChildState>, id: u32, now_ms: u64, window_ms: u64, max_restarts: usize)
    requires
        !has_child(cs, id),
    ensures
        failure_decision(cs, id, now_ms, window_ms, max_restarts) is None,
        failure_children(cs, id, now_ms, window_ms, max_restarts) == cs,
{
}

/// A failure after the restart window has elapsed starts a new window at
/// the failure time with a single restart, and the child keeps its strategy,
/// as long as the limit allows one restart.
pub proof fn lemma_failure_after_window_resets(s: SupervisorActor, id: u32, now_ms: u64)
    requires
        s.wf(),
        has_child(s.children(), id),
        s.max_restarts() >= 1,
        now_ms - s.children()[child_index(s.children(), id)].window_start_ms > s.restart_window_ms(),
    ensures
        ({
            let cs = s.children();
            let k = child_index(cs, id);
            let after = failure_children(cs, id, now_ms, s.restart_window_ms(), s.max_restarts());
            &&& failure_decision(cs, id, now_ms, s.restart_window_ms(), s.max_restarts()) == Some(cs[k].strategy)
            &&& after[k].restart_count == 1
            &&& after[k].window_start_ms == now_ms
            &&& after.len() == cs.len()
        }),
{
}

/// Restarting never adds children: every child left afterwards was
/// supervised before, with the same identifier, strategy, restart count,
/// window and start sequence.
pub proof fn lemma_restart_all_keeps_records(cs: Seq<ChildState>, ids: Seq<u32>, oks: Seq<bool>)
    requires
        ids_unique(cs),
    ensures
        ids_unique(restart_all(cs, ids, oks)),
        restart_all(cs, ids, oks).len() <= cs.len(),
        forall|j: int| 0 <= j < restart_all(cs, ids, oks).len() ==> was_supervised(#[trigger] restart_all(cs, ids, oks)[j], cs),
    decreases ids.len(),
{
    if ids.len() > 0 && oks.len() > 0 {
        let before = restart_all(cs, ids.drop_last(), oks.drop_last());
        lemma_restart_all_keeps_records(cs, ids.drop_last(), oks.drop_last());
        let after = restart_all(cs, ids, oks);
        let id = ids.last();
        lemma_child_index(before, id);
        let k = child_index(before, id);
        if k >= 0 {
            if oks.last() {
                assert forall|j: int| 0 <= j < after.len() implies was_supervised(#[trigger] after[j], cs) by {
                    assert(was_supervised(before[j], cs));
                    let i = choose|i: int| 0 <= i < cs.len() && same_record(before[j], #[trigger] cs[i]);
                    assert(same_record(after[j], cs[i]));
                }
                assert forall|a: int, b: int| 0 <= a < after.len() && 0 <= b < after.len() && a != b implies (#[trigger] after[a]).id != (#[trigger] after[b]).id by {
                    assert(after[a].id == before[a].id && after[b].id == before[b].id);
                }
            } else {
                assert forall|j: int| 0 <= j < after.len() implies was_supervised(#[trigger] after[j], cs) by {
                    let jj = if j < k { j } else { j + 1 };
                    assert(after[j] == before[jj]);
                    assert(was_supervised(before[jj], cs));
                }
                assert forall|a: int, b: int| 0 <= a < after.len() && 0 <= b < after.len() && a != b implies (#[trigger] after[a]).id != (#[trigger] after[b]).id by {
                    let aa = if a < k { a } else { a + 1 };
                    let bb = if b < k { b } else { b + 1 };
                    assert(after[a] == before[aa] && after[b] == before[bb]);
                }
            }
        } else {
            assert(after == before);
        }
    } else {
        assert forall|j: int| 0 <= j < cs.len() implies was_supervised(#[trigger] cs[j], cs) by {
            assert(same_record(cs[j], cs[j]));
        }
    }
}

/// A restart attempt never brings in a child that was not supervised.
proof fn lemma_restart_step_adds_nobody(cs: Seq<ChildState>, id: u32, succeeded: bool, other: u32)
    requires
        ids_unique(cs),
        !has_child(cs, other),
    ensures
        !has_child(restart_step(cs, id, succeeded), other),
{
    lemma_child_index(cs, id);
    let after = restart_step(cs, id, succeeded);
    let k = child_index(cs, id);
    if k >= 0 {
        assert forall|j: int| 0 <= j < after.len() implies (#[trigger] after[j]).id != other by {
            if succeeded {
                assert(after[j].id == cs[j].id);
            } else {
                let jj = if j < k { j } else { j + 1 };
                assert(after[j] == cs[jj]);
            }
        }
    }
}

proof fn lemma_restart_all_drops_children_without_factory(cs: Seq<ChildState>, ids: Seq<u32>, oks: Seq<bool>)
    requires
        ids_unique(cs),
        oks.len() == ids.len(),
        forall|k: int| 0 <= k < oks.len() && #[trigger] oks[k] ==> restartable(restart_all(cs, ids.take(k), oks.take(k)), ids[k]),
    ensures
        forall|j: int| 0 <= j < ids.len() && has_child(cs, #[trigger] ids[j]) && !cs[child_index(cs, ids[j])].has_factory ==> !has_child(
            restart_all(cs, ids, oks),
            ids[j],
        ),
    decreases ids.len(),
{
    if ids.len() > 0 {
        let n = ids.len() - 1;
        let pids = ids.drop_last();
        let poks = oks.drop_last();
        assert forall|k: int| 0 <= k < poks.len() && #[trigger] poks[k] implies restartable(restart_all(cs, pids.take(k), poks.take(k)), pids[k]) by {
            assert(pids.take(k) =~= ids.take(k));
            assert(poks.take(k) =~= oks.take(k));
            assert(oks[k] == poks[k]);
        }
        lemma_restart_all_drops_children_without_factory(cs, pids, poks);
        lemma_restart_all_keeps_records(cs, pids, poks);
        let before = restart_all(cs, pids, poks);
        let after = restart_all(cs, ids, oks);
        let id = ids.last();
        assert(after == restart_step(before, id, oks.last()));
        lemma_child_index(cs, id);
        lemma_child_index(before, id);
        assert forall|j: int| 0 <= j < ids.len() && has_child(cs, #[trigger] ids[j]) && !cs[child_index(cs, ids[j])].has_factory implies !has_child(
            after,
            ids[j],
        ) by {
            let x = ids[j];
            if j < n {
                assert(pids[j] == x);
                lemma_restart_step_adds_nobody(before, id, oks.last(), x);
            } else if has_child(before, id) {
                let b = child_index(before, id);
                assert(was_supervised(before[b], cs));
                let i = choose|i: int| 0 <= i < cs.len() && same_record(before[b], #[trigger] cs[i]);
                assert(cs[i].id == id);
                assert(!before[b].has_factory);
                assert(ids.take(n) =~= pids);
                assert(oks.take(n) =~= poks);
                assert(!oks[n]);
                let rest = before.remove(b);
                assert forall|q: int| 0 <= q < rest.len() implies (#[trigger] rest[q]).id != id by {
                    let qq = if q < b { q } else { q + 1 };
                    assert(rest[q] == before[qq]);
                }
            } else {
                lemma_restart_step_adds_nobody(before, id, oks.last(), x);
            }
        }
    }
}

/// A child that was supervised without a restart factory does not survive a
/// round of restarts that includes it: its restart fails, and it leaves
/// supervision.
pub proof fn lemma_restart_round_drops_children_without_factory(
    cs: Seq<ChildState>,
    ids: Seq<u32>,
    oks: Seq<bool>,
    after: Seq<ChildState>,
    count: nat,
    id: u32,
)
    requires
        ids_unique(cs),
        restart_outcome(cs, ids, oks, after, count),
        ids.contains(id),
        has_child(cs, id),
        !cs[child_index(cs, id)].has_factory,
    ensures
        !has_child(after, id),
{
    lemma_restart_all_drops_children_without_factory(cs, ids, oks);
    let j = choose|j: int| 0 <= j < ids.len() && ids[j] == id;
    assert(ids[j] == id);
}

/// `c` agrees with one of the records `cs` on everything but whether the
/// child is running.
pub open spec fn was_supervised(c: ChildState, cs: Seq<ChildState>) -> bool {
    exists|i: int| 0 <= i < cs.len() && same_record(c, #[trigger] cs[i])
}

/// Two child records agree on everything but whether the child is running.
pub open spec fn same_record(a: ChildState, b: ChildState) -> bool {
    &&& a.id == b.id
    &&& a.strategy == b.strategy
    &&& a.restart_count == b.restart_count
    &&& a.start_sequence == b.start_sequence
    &&& a.window_start_ms == b.window_start_ms
    &&& a.has_factory == b.has_factory
}

} // verus!

//! Spawn errors and the example counter actors used on every runtime.

use crate::actor::supervision::SupervisorError;
use vstd::prelude::*;

verus! {

/// Error types for spawn operations.
#[derive(Debug, Clone, PartialEq, Eq, Structural)]
pub enum SpawnError {
    /// Supervisor-related error
    Supervisor(SupervisorError),
    /// Generic spawn failure
    SpawnFailed,
}

impl From<SupervisorError> for SpawnError {
    fn from(err: SupervisorError) -> (r: Self) {
        SpawnError::Supervisor(err)
    }
}

impl vstd::std_specs::convert::FromSpecImpl<SupervisorError> for SpawnError {
    open spec fn obeys_from_spec() -> bool {
        true
    }

    open spec fn from_spec(v: SupervisorError) -> SpawnError {
        SpawnError::Supervisor(v)
    }
}

/// Sum of the messages `ms`.
pub open spec fn message_sum(ms: Seq<u32>) -> int
    decreases ms.len(),
{
    if ms.len() == 0 {
        0
    } else {
        message_sum(ms.drop_last()) + ms.last()
    }
}

/// Example actor that adds every message to a running total.
pub struct CounterActor {
    value: u32,
}

impl CounterActor {
    /// The running total.
    pub closed spec fn total(&self) -> u32 {
        self.value
    }

    /// A counter starting at zero.
    pub fn new() -> (a: Self)
        ensures
            a.total() == 0,
    {
        CounterActor { value: 0 }
    }

    /// The running total.
    pub fn value(&self) -> (r: u32)
        ensures
            r == self.total(),
    {
        self.value
    }

    /// Adds `msg` to the total; the sum must fit in a `u32`.
    pub fn handle(&mut self, msg: u32)
        requires
            old(self).total() + msg <= u32::MAX,
        ensures
            final(self).total() == old(self).total() + msg,
    {
        self.value = self.value + msg;
    }
}

impl Default for CounterActor {
    fn default() -> (a: Self)
        ensures
            a.total() == 0,
    {
        CounterActor::new()
    }
}

/// Example batch actor that adds every message of a batch to a running total.
pub struct CounterBatchActor {
    value: u32,
    batch_size: usize,
}

impl CounterBatchActor {
    /// The running total.
    pub closed spec fn total(&self) -> u32 {
        self.value
    }

    /// Largest batch the actor asks for.
    pub closed spec fn batch_limit(&self) -> usize {
        self.batch_size
    }

    /// A counter starting at zero that takes batches of up to 16 messages.
    pub fn new() -> (a: Self)
        ensures
            a.total() == 0,
            a.batch_limit() == 16,
    {
        CounterBatchActor { value: 0, batch_size: 16 }
    }

    /// A counter starting at zero that takes batches of up to `batch_size` messages.
    pub fn with_batch_size(batch_size: usize) -> (a: Self)
        ensures
            a.total() == 0,
            a.batch_limit() == batch_size,
    {
        CounterBatchActor { value: 0, batch_size }
    }

    /// The running total.
    pub fn value(&self) -> (r: u32)
        ensures
            r == self.total(),
    {
        self.value
    }

    /// Maximum number of messages processed in one batch.
    pub fn max_batch_size(&self) -> (r: usize)
        ensures
            r == self.batch_limit(),
    {
        self.batch_size
    }

    /// Adds every message of the batch to the total; the sum must fit in a `u32`.
    pub fn handle_batch(&mut self, messages: &[u32])
        requires
            old(self).total() + message_sum(messages@) <= u32::MAX,
        ensures
            final(self).total() == old(self).total() + message_sum(messages@),
            final(self).batch_limit() == old(self).batch_limit(),
    {
        let ghost start = self.value;
        let mut i: usize = 0;
        while i < messages.len()
            invariant
                i <= messages@.len(),
                start + message_sum(messages@) <= u32::MAX,
                self.value == start + message_sum(messages@.take(i as int)),
                self.batch_size == old(self).batch_size,
            decreases messages@.len() - i,
        {
            proof {
                assert(messages@.take(i + 1).drop_last() =~= messages@.take(i as int));
                lemma_message_sum_prefix(messages@, i as int + 1);
            }
            self.value = self.value + messages[i];
            i = i + 1;
        }
        proof {
            assert(messages@.take(i as int) =~= messages@);
        }
    }
}

/// Sums of prefixes never exceed the sum of the whole sequence.
proof fn lemma_message_sum_prefix(ms: Seq<u32>, k: int)
    requires
        0 <= k <= ms.len(),
    ensures
        message_sum(ms.take(k)) <= message_sum(ms),
    decreases ms.len() - k,
{
    if k < ms.len() {
        lemma_message_sum_prefix(ms, k + 1);
        assert(ms.take(k + 1).drop_last() =~= ms.take(k));
    } else {
        assert(ms.take(k) =~= ms);
    }
}

impl Default for CounterBatchActor {
    fn default() -> (a: Self)
        ensures
            a.total() == 0,
            a.batch_limit() == 16,
    {
        CounterBatchActor::new()
    }
}

} // verus!

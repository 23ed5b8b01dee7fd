//! Benchmark fixtures: deterministic event sequences and batches.

use crate::bench::common::BenchEvent;
use vstd::prelude::*;

verus! {

/// Largest count for which every generated index fits in a `u32`.
pub open spec fn index_limit() -> int {
    0x1_0000_0000
}

/// `e` is a batch holding exactly `values`.
pub open spec fn is_batch(e: BenchEvent, values: Seq<u32>) -> bool {
    e matches BenchEvent::Batch(b) && b@ == values
}

/// The `i`-th event of `generate_event_sequence`: a transition, a batch of
/// `[i, i + 1]`, and a reset, in turn.
pub open spec fn sequence_event(e: BenchEvent, i: int) -> bool {
    if i % 3 == 0 {
        e == BenchEvent::Transition(i as u32)
    } else if i % 3 == 1 {
        is_batch(e, seq![i as u32, (i + 1) as u32])
    } else {
        e == BenchEvent::Reset
    }
}

/// The `i`-th event of `realistic_workload`: transitions for `i % 10` in
/// 0..=6, batches of `[i, i + 1]` for 7..=8, and a reset for 9.
pub open spec fn workload_event(e: BenchEvent, i: int) -> bool {
    if i % 10 <= 6 {
        e == BenchEvent::Transition(i as u32)
    } else if i % 10 <= 8 {
        is_batch(e, seq![i as u32, (i + 1) as u32])
    } else {
        e == BenchEvent::Reset
    }
}

/// The values `0, 1, ..., n - 1`.
pub open spec fn counting(n: int) -> Seq<u32> {
    Seq::new(n as nat, |j: int| j as u32)
}

/// The values `start, start + 1, ..., start + n - 1`.
pub open spec fn counting_from(start: int, n: int) -> Seq<u32> {
    Seq::new(n as nat, |j: int| (start + j) as u32)
}

/// A batch of `[i, i + 1]`.
fn pair_batch(i: usize) -> (e: BenchEvent)
    requires
        i + 1 <= u32::MAX,
    ensures
        is_batch(e, seq![i as u32, (i + 1) as u32]),
{
    let mut v: Vec<u32> = Vec::new();
    v.push(i as u32);
    v.push((i + 1) as u32);
    proof {
        assert(v@ =~= seq![i as u32, (i + 1) as u32]);
    }
    BenchEvent::Batch(v)
}

/// A sequence of `count` events cycling transition, batch, reset.
pub fn generate_event_sequence(count: usize) -> (r: Vec<BenchEvent>)
    requires
        count <= index_limit(),
    ensures
        r@.len() == count,
        forall|i: int| 0 <= i < count ==> sequence_event(#[trigger] r@[i], i),
{
    let mut events: Vec<BenchEvent> = Vec::new();
    let mut i: usize = 0;
    while i < count
        invariant
            i <= count <= index_limit(),
            events@.len() == i,
            forall|k: int| 0 <= k < i ==> sequence_event(#[trigger] events@[k], k),
        decreases count - i,
    {
        let e = if i % 3 == 0 {
            BenchEvent::Transition(i as u32)
        } else if i % 3 == 1 {
            proof {
                assert(0xffff_ffffint % 3 == 0);
            }
            pair_batch(i)
        } else {
            BenchEvent::Reset
        };
        events.push(e);
        i = i + 1;
    }
    events
}

/// A batch holding `0, 1, ..., size - 1`.
pub fn create_large_batch(size: usize) -> (r: BenchEvent)
    requires
        size <= index_limit(),
    ensures
        is_batch(r, counting(size as int)),
{
    let mut values: Vec<u32> = Vec::new();
    let mut i: usize = 0;
    while i < size
        invariant
            i <= size <= index_limit(),
            values@ == counting(i as int),
        decreases size - i,
    {
        values.push(i as u32);
        i = i + 1;
        proof {
            assert(values@ =~= counting(i as int));
        }
    }
    BenchEvent::Batch(values)
}

/// A workload of `duration_events` events: 70% transitions, 20% small
/// batches, 10% resets, in a fixed pattern of ten.
pub fn realistic_workload(duration_events: usize) -> (r: Vec<BenchEvent>)
    requires
        duration_events <= index_limit(),
    ensures
        r@.len() == duration_events,
        forall|i: int| 0 <= i < duration_events ==> workload_event(#[trigger] r@[i], i),
{
    let mut events: Vec<BenchEvent> = Vec::with_capacity(duration_events);
    let mut i: usize = 0;
    while i < duration_events
        invariant
            i <= duration_events <= index_limit(),
            events@.len() == i,
            forall|k: int| 0 <= k < i ==> workload_event(#[trigger] events@[k], k),
        decreases duration_events - i,
    {
        let e = if i % 10 <= 6 {
            BenchEvent::Transition(i as u32)
        } else if i % 10 <= 8 {
            proof {
                assert(0xffff_ffffint % 10 == 5);
            }
            pair_batch(i)
        } else {
            BenchEvent::Reset
        };
        events.push(e);
        i = i + 1;
    }
    events
}

/// `num_transitions` transitions carrying `0, 1, ...`.
pub fn stress_test_scenario(num_transitions: usize) -> (r: Vec<BenchEvent>)
    requires
        num_transitions <= index_limit(),
    ensures
        r@.len() == num_transitions,
        forall|i: int| 0 <= i < num_transitions ==> #[trigger] r@[i] == BenchEvent::Transition(i as u32),
{
    let mut events: Vec<BenchEvent> = Vec::new();
    let mut i: usize = 0;
    while i < num_transitions
        invariant
            i <= num_transitions <= index_limit(),
            events@.len() == i,
            forall|k: int| 0 <= k < i ==> #[trigger] events@[k] == BenchEvent::Transition(k as u32),
        decreases num_transitions - i,
    {
        events.push(BenchEvent::Transition(i as u32));
        i = i + 1;
    }
    events
}

/// `num_batches` batches of `batch_size` consecutive values; batch `i`
/// holds `i * batch_size, ..., i * batch_size + batch_size - 1`.
pub fn memory_intensive_scenario(num_batches: usize, batch_size: usize) -> (r: Vec<BenchEvent>)
    requires
        num_batches * batch_size <= index_limit(),
    ensures
        r@.len() == num_batches,
        forall|i: int| 0 <= i < num_batches ==> is_batch(#[trigger] r@[i], counting_from(i * batch_size, batch_size as int)),
{
    let mut events: Vec<BenchEvent> = Vec::new();
    let mut i: usize = 0;
    while i < num_batches
        invariant
            i <= num_batches,
            num_batches * batch_size <= index_limit(),
            events@.len() == i,
            forall|k: int| 0 <= k < i ==> is_batch(#[trigger] events@[k], counting_from(k * batch_size, batch_size as int)),
        decreases num_batches - i,
    {
        proof {
            vstd::arithmetic::mul::lemma_mul_inequality(i as int + 1, num_batches as int, batch_size as int);
            vstd::arithmetic::mul::lemma_mul_is_distributive_add_other_way(batch_size as int, i as int, 1);
        }
        let base = i * batch_size;
        let mut batch: Vec<u32> = Vec::new();
        let mut j: usize = 0;
        while j < batch_size
            invariant
                j <= batch_size,
                base == i * batch_size,
                base + batch_size <= index_limit(),
                batch@ == counting_from(base as int, j as int),
            decreases batch_size - j,
        {
            batch.push((base + j) as u32);
            j = j + 1;
            proof {
                assert(batch@ =~= counting_from(base as int, j as int));
            }
        }
        events.push(BenchEvent::Batch(batch));
        i = i + 1;
    }
    events
}

} // verus!

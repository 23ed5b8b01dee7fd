//! Bounded single-producer single-consumer mailboxes.
//!
//! A `Mailbox<T, N>` holds at most `N - 1` messages in FIFO order, the
//! capacity convention of the fixed-size ring buffers used for actor
//! mailboxes on embedded targets.

use vstd::prelude::*;
use std::collections::VecDeque;

verus! {

/// Default capacity parameter for actor mailboxes.
pub const DEFAULT_MAILBOX_CAPACITY: usize = 16;

/// A bounded FIFO mailbox holding at most `N - 1` messages.
pub struct Mailbox<T, const N: usize> {
    queue: VecDeque<T>,
}

/// The mailbox contents after offering `value` to a mailbox holding `q`
/// with size parameter `n`: appended unless the mailbox is full.
pub open spec fn enqueued<T>(q: Seq<T>, value: T, n: usize) -> Seq<T> {
    if q.len() >= n - 1 {
        q
    } else {
        q.push(value)
    }
}

/// The mailbox contents after taking the oldest message, if any.
pub open spec fn dequeued<T>(q: Seq<T>) -> Seq<T> {
    if q.len() == 0 {
        q
    } else {
        q.drop_first()
    }
}

/// The message a dequeue of a mailbox holding `q` returns.
pub open spec fn dequeue_result<T>(q: Seq<T>) -> Option<T> {
    if q.len() == 0 {
        None
    } else {
        Some(q[0])
    }
}

impl<T, const N: usize> View for Mailbox<T, N> {
    type V = Seq<T>;

    closed spec fn view(&self) -> Seq<T> {
        self.queue@
    }
}

impl<T, const N: usize> Mailbox<T, N> {
    #[verifier::type_invariant]
    spec fn inv(&self) -> bool {
        N >= 2 && self.queue@.len() <= N - 1
    }

    /// An empty mailbox. The size parameter must be at least 2.
    pub fn new() -> (m: Self)
        requires
            N >= 2,
        ensures
            m@ == Seq::<T>::empty(),
    {
        Mailbox { queue: VecDeque::new() }
    }

    fn take_queue(&mut self) -> (q: VecDeque<T>)
        ensures
            q@ == old(self)@,
            final(self)@ == Seq::<T>::empty(),
    {
        proof {
            use_type_invariant(&*self);
        }
        let mut q = VecDeque::new();
        std::mem::swap(&mut q, &mut self.queue);
        q
    }

    /// Maximum number of messages the mailbox holds: `N - 1`.
    pub fn capacity(&self) -> (r: usize)
        ensures
            r == N - 1,
            N >= 2,
    {
        proof {
            use_type_invariant(self);
        }
        N - 1
    }

    /// Number of messages waiting; never more than the capacity.
    pub fn len(&self) -> (r: usize)
        ensures
            r == self@.len(),
            r <= N - 1,
    {
        proof {
            use_type_invariant(self);
        }
        self.queue.len()
    }

    /// Whether no message is waiting.
    pub fn is_empty(&self) -> (r: bool)
        ensures
            r == (self@.len() == 0),
    {
        self.queue.len() == 0
    }

    /// Whether the mailbox holds its capacity of messages.
    pub fn is_full(&self) -> (r: bool)
        ensures
            r == (self@.len() == N - 1),
    {
        proof {
            use_type_invariant(self);
        }
        self.queue.len() == N - 1
    }

    /// Whether one more message fits.
    pub fn ready(&self) -> (r: bool)
        ensures
            r == (self@.len() < N - 1),
            self@.len() <= N - 1,
    {
        proof {
            use_type_invariant(self);
        }
        self.queue.len() < N - 1
    }

    /// Appends `value`, or hands it back when the mailbox is full.
    pub fn enqueue(&mut self, value: T) -> (r: Result<(), T>)
        ensures
            final(self)@ == enqueued(old(self)@, value, N),
            old(self)@.len() >= N - 1 ==> r == Err::<(), T>(value),
            old(self)@.len() < N - 1 ==> r is Ok,
    {
        proof {
            use_type_invariant(&*self);
        }
        if self.queue.len() >= N - 1 {
            return Err(value);
        }
        let mut q = self.take_queue();
        q.push_back(value);
        self.queue = q;
        Ok(())
    }

    /// Takes the oldest message, if any.
    pub fn dequeue(&mut self) -> (r: Option<T>)
        ensures
            final(self)@ == dequeued(old(self)@),
            r == dequeue_result(old(self)@),
    {
        proof {
            use_type_invariant(&*self);
        }
        let mut q = self.take_queue();
        let r = q.pop_front();
        proof {
            if old(self)@.len() > 0 {
                assert(q@ =~= old(self)@.drop_first());
            }
        }
        self.queue = q;
        r
    }
}

/// Creates an empty mailbox with size parameter `N` (capacity `N - 1`).
pub fn create_mailbox<T, const N: usize>() -> (m: Mailbox<T, N>)
    requires
        N >= 2,
    ensures
        m@ == Seq::<T>::empty(),
{
    Mailbox::new()
}

/// Messages come out of a mailbox in the order they went in: a message
/// accepted by a mailbox holding `q` is returned after everything in `q`.
pub proof fn lemma_mailbox_fifo<T>(q: Seq<T>, value: T, n: usize)
    requires
        q.len() < n - 1,
    ensures
        dequeue_result(enqueued(q, value, n)) == (if q.len() == 0 { Some(value) } else { Some(q[0]) }),
        q.len() > 0 ==> dequeued(enqueued(q, value, n)) == dequeued(q).push(value),
        q.len() == 0 ==> dequeued(enqueued(q, value, n)) == Seq::<T>::empty(),
{
    if q.len() > 0 {
        assert(q.push(value).drop_first() =~= q.drop_first().push(value));
    } else {
        assert(q.push(value).drop_first() =~= Seq::<T>::empty());
    }
}

/// A full mailbox refuses messages and keeps its contents.
pub proof fn lemma_full_mailbox_unchanged<T>(q: Seq<T>, value: T, n: usize)
    requires
        q.len() >= n - 1,
    ensures
        enqueued(q, value, n) == q,
{
}

/// Collects a batch: `first` followed by further waiting messages, until the
/// batch holds `min(max_batch_size, 64)` messages or the mailbox is empty.
/// The first message is always part of the batch.
pub fn collect_batch<T, const N: usize>(inbox: &mut Mailbox<T, N>, first: T, max_batch_size: usize) -> (batch: Vec<T>)
    ensures
        ({
            let limit = if max_batch_size < 64 { max_batch_size as int } else { 64 };
            let extra = batch_extra(old(inbox)@.len() as int, limit);
            &&& batch@ == seq![first] + old(inbox)@.take(extra)
            &&& final(inbox)@ == old(inbox)@.skip(extra)
        }),
{
    let max_batch = if max_batch_size < 64 { max_batch_size } else { 64 };
    let mut batch: Vec<T> = Vec::new();
    batch.push(first);
    let ghost q0 = inbox@;
    let ghost extra = batch_extra(q0.len() as int, max_batch as int);
    while batch.len() < max_batch
        invariant
            1 <= batch@.len() <= 64,
            max_batch <= 64,
            batch@.len() - 1 <= q0.len(),
            batch@ == seq![first] + q0.take(batch@.len() - 1),
            inbox@ == q0.skip(batch@.len() - 1),
            extra == batch_extra(q0.len() as int, max_batch as int),
            batch@.len() - 1 <= extra,
        ensures
            batch@.len() - 1 == extra,
            batch@ == seq![first] + q0.take(extra),
            inbox@ == q0.skip(extra),
        decreases max_batch - batch@.len(),
    {
        match inbox.dequeue() {
            Some(msg) => {
                proof {
                    let k = batch@.len() - 1;
                    assert(q0.skip(k)[0] == q0[k]);
                    assert(q0.skip(k).drop_first() =~= q0.skip(k + 1));
                    assert(seq![first] + q0.take(k + 1) =~= (seq![first] + q0.take(k)).push(q0[k]));
                }
                batch.push(msg);
            },
            None => {
                break;
            },
        }
    }
    batch
}

/// Number of messages beyond the first that a batch takes from a mailbox
/// holding `waiting` messages under the batch limit `limit`.
pub open spec fn batch_extra(waiting: int, limit: int) -> int {
    let wanted = if limit - 1 > 0 { limit - 1 } else { 0 };
    if wanted < waiting { wanted } else { waiting }
}

} // verus!

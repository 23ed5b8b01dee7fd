//! Fail-fast operations on bounded mailboxes: a send to a full mailbox
//! returns immediately with the message handed back.

use crate::actor::backpressure::SendError;
use crate::actor::mailbox::{dequeue_result, dequeued, enqueued, Mailbox};
use vstd::prelude::*;

verus! {

/// Tries to send `item`; a full mailbox hands it back as `SendError::Full`.
pub fn try_send<T, const N: usize>(outbox: &mut Mailbox<T, N>, item: T) -> (r: Result<(), SendError<T>>)
    ensures
        final(outbox)@ == enqueued(old(outbox)@, item, N),
        old(outbox)@.len() >= N - 1 ==> r == Err::<(), SendError<T>>(SendError::Full(item)),
        old(outbox)@.len() < N - 1 ==> r is Ok,
{
    match outbox.enqueue(item) {
        Ok(()) => Ok(()),
        Err(item) => Err(SendError::Full(item)),
    }
}

/// Whether the mailbox is full.
pub fn is_full<T, const N: usize>(outbox: &Mailbox<T, N>) -> (r: bool)
    ensures
        r == (outbox@.len() == N - 1),
{
    !outbox.ready()
}

/// Number of messages in the mailbox.
pub fn len<T, const N: usize>(outbox: &Mailbox<T, N>) -> (r: usize)
    ensures
        r == outbox@.len(),
{
    outbox.len()
}

/// Maximum number of messages the mailbox holds.
pub fn capacity<T, const N: usize>(outbox: &Mailbox<T, N>) -> (r: usize)
    ensures
        r == N - 1,
{
    outbox.capacity()
}

/// Takes the oldest message, if any.
pub fn try_recv<T, const N: usize>(inbox: &mut Mailbox<T, N>) -> (r: Option<T>)
    ensures
        final(inbox)@ == dequeued(old(inbox)@),
        r == dequeue_result(old(inbox)@),
{
    inbox.dequeue()
}

/// Whether the mailbox is empty.
pub fn is_empty<T, const N: usize>(inbox: &Mailbox<T, N>) -> (r: bool)
    ensures
        r == (inbox@.len() == 0),
{
    inbox.len() == 0
}

/// Number of messages waiting in the mailbox.
pub fn inbox_len<T, const N: usize>(inbox: &Mailbox<T, N>) -> (r: usize)
    ensures
        r == inbox@.len(),
{
    inbox.len()
}

} // verus!

//! Batches taken from Tokio mailboxes: the first message that was awaited,
//! then the messages already waiting, up to the actor's batch size.

use vstd::prelude::*;

verus! {

/// The receiving end of a Tokio mailbox.
#[verifier::external_type_specification]
#[verifier::external_body]
#[verifier::reject_recursive_types(T)]
pub struct ExTokioReceiver<T>(tokio::sync::mpsc::Receiver<T>);

/// Takes a message that is already waiting, if any.
///
/// Trusted: calls `tokio::sync::mpsc::Receiver::try_recv`, which never
/// waits; both of its errors (nothing waiting, every sender gone) become
/// `None`. Nothing is stated of the message, which the senders decide.
#[verifier::external_body]
fn try_take<T>(inbox: &mut tokio::sync::mpsc::Receiver<T>) -> Option<T> {
    inbox.try_recv().ok()
}

/// Most messages a batch holds for the batch size `max_batch_size`: the
/// first message always goes in.
pub open spec fn batch_limit(max_batch_size: usize) -> int {
    if max_batch_size > 1 {
        max_batch_size as int
    } else {
        1
    }
}

/// Adds `taken`, the message taken from the mailbox (if one was waiting), at
/// the end of `batch`. Returns whether to take another: a message came and
/// the batch still holds fewer than `max_batch_size` messages.
pub fn extend_batch<T>(batch: &mut Vec<T>, taken: Option<T>, max_batch_size: usize) -> (more: bool)
    ensures
        match taken {
            Some(m) => final(batch)@ == old(batch)@.push(m),
            None => final(batch)@ == old(batch)@,
        },
        more == (taken is Some && final(batch)@.len() < max_batch_size),
{
    match taken {
        Some(m) => {
            batch.push(m);
            batch.len() < max_batch_size
        },
        None => false,
    }
}

/// A batch for a Tokio task: `first`, then messages already waiting in
/// `inbox`, each added by [`extend_batch`], until the batch holds
/// `max_batch_size` messages or none is waiting. The first message comes
/// first and is always in the batch.
pub fn fill_batch<T>(inbox: &mut tokio::sync::mpsc::Receiver<T>, first: T, max_batch_size: usize) -> (batch: Vec<T>)
    ensures
        1 <= batch@.len() <= batch_limit(max_batch_size),
        batch@[0] == first,
{
    let mut batch: Vec<T> = Vec::new();
    batch.push(first);
    let mut more = batch.len() < max_batch_size;
    while more
        invariant
            1 <= batch@.len() <= batch_limit(max_batch_size),
            batch@[0] == first,
            more ==> batch@.len() < max_batch_size,
        decreases max_batch_size - batch@.len() + (if more { 1int } else { 0int }),
    {
        let taken = try_take(inbox);
        more = extend_batch(&mut batch, taken, max_batch_size);
    }
    batch
}

} // verus!

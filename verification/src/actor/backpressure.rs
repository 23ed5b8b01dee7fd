//! Back-pressure semantics for actor mailboxes: sends fail fast with the
//! message handed back when the mailbox is full.

use vstd::prelude::*;

pub mod embedded;

verus! {

/// Error for message sending; the message is handed back.
#[derive(Debug, PartialEq, Eq)]
pub enum SendError<T> {
    /// Mailbox is full
    Full(T),
    /// Receiver has been dropped
    Closed(T),
}

impl<T> SendError<T> {
    /// Human-readable description of the error.
    pub fn to_string(&self) -> (r: String)
        ensures
            r@ == match self {
                SendError::Full(_) => "mailbox is full"@,
                SendError::Closed(_) => "receiver has been dropped"@,
            },
    {
        match self {
            SendError::Full(_) => String::from_str("mailbox is full"),
            SendError::Closed(_) => String::from_str("receiver has been dropped"),
        }
    }

    /// The message that could not be sent.
    pub fn into_inner(self) -> (r: T)
        ensures
            r == match self {
                SendError::Full(m) => m,
                SendError::Closed(m) => m,
            },
    {
        match self {
            SendError::Full(m) => m,
            SendError::Closed(m) => m,
        }
    }
}

} // verus!

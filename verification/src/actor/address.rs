//! Supporting types of actor addresses.

use vstd::prelude::*;

verus! {

/// Error when spawning a child actor from an address.
#[derive(Debug, Clone, Copy, PartialEq, Eq, Structural)]
pub enum SpawnChildError {
    /// The lock guarding the children list was poisoned
    MutexPoisoned,
}

/// Identity cell of an actor; addresses link parents and children through it.
pub struct ActorCell<Event> {
    _phantom: core::marker::PhantomData<Event>,
}

impl<Event> ActorCell<Event> {
    /// A fresh actor cell.
    pub fn new() -> (c: Self) {
        ActorCell { _phantom: core::marker::PhantomData }
    }
}

} // verus!

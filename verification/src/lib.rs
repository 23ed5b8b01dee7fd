//! Core runtime pieces of the `lit-bit` statechart and actor framework:
//! supervision decisions, bounded mailboxes, restart back-off, panic
//! reporting, and the benchmark support types that go with them.
//!
//! The functions of this crate are verified with Verus against the contracts
//! written on them, except the small `#[verifier::external_body]` wrappers
//! around clock, channel and `Duration` calls, whose contracts are trusted
//! and say only what those calls document.

pub mod actor;
pub mod bench;
pub mod safety_check;
pub mod test_utils;
pub mod text;
pub mod timer;

//! Test support: the events actor probes observe.

pub mod probes;

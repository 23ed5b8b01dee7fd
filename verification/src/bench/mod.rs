//! Benchmark support: event fixtures, latency and allocation accounting,
//! and runtime descriptions.

pub mod common;
pub mod fixtures;
pub mod leaderboard;
pub mod metrics;
pub mod order_stats;
pub mod perf;
pub mod runtime;
pub mod utils;

use lit_bit_core::bench::leaderboard::{leaderboard_text, LeaderEntry};
use lit_bit_core::bench::order_stats::{order_statistics, Median, OrderStatistics};
use lit_bit_core::bench::runtime::{blocking_unsupported_error, executor_plan, ExecutorPlan};
use lit_bit_core::bench::common::{throughput_per_second, total_messages, BenchConfig, BenchEvent};
use lit_bit_core::bench::fixtures::{
    create_large_batch, generate_event_sequence, memory_intensive_scenario, realistic_workload,
    stress_test_scenario,
};
use lit_bit_core::bench::metrics::{LatencyMeter, TrackingAllocator};
use lit_bit_core::bench::runtime::{RuntimeError, RuntimeType};
use lit_bit_core::bench::utils;
use std::time::Duration;

#[test]
fn test_memory_intensive_scenario_normal_case() {
    let events = memory_intensive_scenario(2, 3);
    assert_eq!(events.len(), 2);

    if let BenchEvent::Batch(batch1) = &events[0] {
        assert_eq!(batch1, &[0, 1, 2]);
    } else {
        panic!("Expected first event to be a batch");
    }

    if let BenchEvent::Batch(batch2) = &events[1] {
        assert_eq!(batch2, &[3, 4, 5]);
    } else {
        panic!("Expected second event to be a batch");
    }
}

#[test]
fn test_memory_intensive_scenario_single_batch() {
    let events = memory_intensive_scenario(1, 5);
    assert_eq!(events.len(), 1);

    if let BenchEvent::Batch(batch) = &events[0] {
        assert_eq!(batch, &[0, 1, 2, 3, 4]);
    } else {
        panic!("Expected event to be a batch");
    }
}

#[test]
fn test_memory_intensive_scenario_empty_batch() {
    let events = memory_intensive_scenario(2, 0);
    assert_eq!(events.len(), 2);

    for event in &events {
        if let BenchEvent::Batch(batch) = event {
            assert!(batch.is_empty());
        } else {
            panic!("Expected event to be a batch");
        }
    }
}

#[test]
fn test_memory_intensive_scenario_validates_inputs() {
    let events = memory_intensive_scenario(2, 5);
    assert_eq!(events.len(), 2);

    if let BenchEvent::Batch(batch) = &events[1] {
        assert_eq!(batch[0], 5);
        assert_eq!(batch[4], 9);
    } else {
        panic!("Expected second event to be a batch");
    }
}

#[test]
fn test_overflow_protection_with_reasonable_values() {
    let small = memory_intensive_scenario(10, 10);
    assert_eq!(small.len(), 10);
    let moderate = memory_intensive_scenario(100, 100);
    assert_eq!(moderate.len(), 100);
    if let BenchEvent::Batch(last) = &moderate[99] {
        assert_eq!(last[99], 9999);
    } else {
        panic!("Expected a batch event");
    }
}

#[test]
fn test_generate_event_sequence() {
    let events = generate_event_sequence(6);
    assert_eq!(events.len(), 6);

    assert!(matches!(events[0], BenchEvent::Transition(0)));
    assert!(matches!(events[1], BenchEvent::Batch(_)));
    assert!(matches!(events[2], BenchEvent::Reset));
    assert!(matches!(events[3], BenchEvent::Transition(3)));
    assert!(matches!(events[4], BenchEvent::Batch(_)));
    assert!(matches!(events[5], BenchEvent::Reset));
}

#[test]
fn generated_batches_hold_index_and_successor() {
    let events = generate_event_sequence(5);
    assert_eq!(events[1], BenchEvent::Batch(vec![1, 2]));
    assert_eq!(events[4], BenchEvent::Batch(vec![4, 5]));
    assert!(generate_event_sequence(0).is_empty());
}

#[test]
fn test_create_large_batch() {
    let event = create_large_batch(5);
    if let BenchEvent::Batch(batch) = event {
        assert_eq!(batch, vec![0, 1, 2, 3, 4]);
    } else {
        panic!("Expected a batch event");
    }
}

#[test]
fn test_realistic_workload() {
    let events = realistic_workload(10);
    assert_eq!(events.len(), 10);

    let transitions = events.iter().filter(|e| matches!(e, BenchEvent::Transition(_))).count();
    let batches = events.iter().filter(|e| matches!(e, BenchEvent::Batch(_))).count();
    let resets = events.iter().filter(|e| matches!(e, BenchEvent::Reset)).count();

    assert_eq!(transitions, 7);
    assert_eq!(batches, 2);
    assert_eq!(resets, 1);
}

#[test]
fn realistic_workload_positions() {
    let events = realistic_workload(12);
    assert_eq!(events[6], BenchEvent::Transition(6));
    assert_eq!(events[7], BenchEvent::Batch(vec![7, 8]));
    assert_eq!(events[9], BenchEvent::Reset);
    assert_eq!(events[11], BenchEvent::Transition(11));
}

#[test]
fn test_stress_test_scenario() {
    let events = stress_test_scenario(5);
    assert_eq!(events.len(), 5);

    for (i, event) in events.iter().enumerate() {
        if let BenchEvent::Transition(id) = event {
            assert_eq!(*id, u32::try_from(i).unwrap());
        } else {
            panic!("Expected all events to be transitions");
        }
    }
}

#[test]
fn test_benchmark_config() {
    let config = BenchConfig::default();
    assert_eq!(config.runtime, RuntimeType::TokioSingleThread);
    assert_eq!(config.warmup_iterations, 10);
    assert_eq!(config.measurement_iterations, 100);
}

#[test]
fn total_messages_is_samples_times_iterations() {
    let config = BenchConfig { sample_size: 10, measurement_iterations: 5, ..Default::default() };
    assert_eq!(total_messages(&config), 50);
    assert_eq!(total_messages(&BenchConfig::default()), 100_000);
}

#[test]
fn test_runtime_error_display_formatting() {
    let embassy_spawner_error = RuntimeError::EmbassyRequiresSpawner { message: "Test message".to_string() };
    assert!(embassy_spawner_error.to_string().contains("Embassy runtime configuration error"));
    assert!(embassy_spawner_error.to_string().contains("Test message"));

    let embassy_blocking_error =
        RuntimeError::EmbassyBlockingNotSupported { message: "Blocking not supported".to_string() };
    assert!(embassy_blocking_error.to_string().contains("Embassy blocking operation not supported"));

    let tokio_error = RuntimeError::TokioNotEnabled {
        requested_runtime: RuntimeType::FuturesLite,
        message: "Feature not enabled".to_string(),
    };
    assert!(tokio_error.to_string().contains("not available"));
}

#[test]
fn runtime_error_text_is_exact() {
    let e = RuntimeError::TokioNotEnabled {
        requested_runtime: RuntimeType::TokioMultiThread,
        message: "enable async-tokio".to_string(),
    };
    assert_eq!(e.to_string(), "Tokio runtime 'TokioMultiThread' not available: enable async-tokio");
    let e = RuntimeError::EmbassyRequiresSpawner { message: "x".to_string() };
    assert_eq!(e.to_string(), "Embassy runtime configuration error: x");
}

#[test]
fn reported_worker_threads_only_for_multi_thread() {
    assert_eq!(RuntimeType::TokioMultiThread.reported_worker_threads(Some(4)), Some(4));
    assert_eq!(RuntimeType::TokioSingleThread.reported_worker_threads(Some(4)), None);
    assert_eq!(RuntimeType::FuturesLite.debug_name(), "FuturesLite");
}

#[test]
fn latency_meter_mean() {
    let mut meter = LatencyMeter::new();
    meter.record(Duration::from_nanos(100));
    meter.record(Duration::from_nanos(200));
    meter.record(Duration::from_nanos(300));
    meter.record(Duration::from_nanos(400));
    assert_eq!(meter.samples().len(), 4);
    assert_eq!(meter.mean(), Duration::from_nanos(250));
}

#[test]
fn latency_meter_mean_of_nothing_is_zero() {
    let meter = LatencyMeter::default();
    assert_eq!(meter.mean(), Duration::ZERO);
}

#[test]
fn test_bench_allocator() {
    let mut allocator = TrackingAllocator::new();
    allocator.record_allocation(100);
    allocator.record_allocation(50);
    allocator.record_deallocation(30);

    let metrics = allocator.snapshot();
    assert_eq!(metrics.peak, 150);
    assert_eq!(metrics.count, 2);
    assert_eq!(metrics.allocated, 150);
    assert_eq!(metrics.deallocated, 30);
    assert!(!metrics.is_zero_alloc());
}

#[test]
fn allocator_reset_clears_counters() {
    let mut allocator = TrackingAllocator::default();
    allocator.record_allocation(10);
    allocator.reset();
    assert_eq!(allocator.allocated_bytes(), 0);
    assert_eq!(allocator.peak_allocation(), 0);
    assert_eq!(allocator.allocation_count(), 0);
    assert!(allocator.snapshot().is_zero_alloc());
}

#[test]
fn allocation_stats_report() {
    let mut allocator = TrackingAllocator::new();
    allocator.record_allocation(100);
    allocator.record_deallocation(40);
    let report = allocator.snapshot().format_stats();
    assert_eq!(
        report,
        "📊 Allocation Stats:\nTotal allocated: 100 bytes\nTotal deallocated: 40 bytes\nPeak usage: 100 bytes\nAllocation count: 1\nStatus: ⚠️ Allocations detected"
    );
    let empty = TrackingAllocator::new().snapshot().format_stats();
    assert!(empty.ends_with("Allocation count: 0\nStatus: ✅ Zero allocations"));
}

#[test]
fn utils_allocator_net_and_peak() {
    let mut allocator = utils::TrackingAllocator::new();
    allocator.record_allocation(64);
    allocator.record_allocation(36);
    allocator.record_deallocation(120);
    assert_eq!(allocator.peak_allocation(), 100);
    assert_eq!(allocator.net_allocated(), -20);
    allocator.reset();
    assert_eq!(allocator.allocated_bytes(), 0);
    assert_eq!(allocator.deallocated_bytes(), 0);
}

#[test]
fn measure_time_returns_result() {
    let (value, elapsed) = utils::measure_time(|| 6 * 7);
    assert_eq!(value, 42);
    assert!(elapsed < Duration::from_secs(60));
}

#[test]
fn benchmark_config_defaults() {
    let config = utils::BenchmarkConfig::default();
    assert_eq!(config.warmup_iterations, 10);
    assert_eq!(config.measurement_iterations, 100);
}

#[test]
fn executor_plans_follow_runtime_type() {
    assert_eq!(
        executor_plan(RuntimeType::TokioMultiThread, Some(3)),
        Ok(ExecutorPlan::TokioMultiThread { worker_threads: Some(3) })
    );
    assert_eq!(executor_plan(RuntimeType::TokioSingleThread, Some(3)), Ok(ExecutorPlan::TokioSingleThread));
    assert_eq!(executor_plan(RuntimeType::FuturesLite, None), Ok(ExecutorPlan::FuturesLite));
    match executor_plan(RuntimeType::Embassy, None) {
        Err(e) => assert!(e.to_string().starts_with("Embassy runtime configuration error: Embassy runtime requires a spawner")),
        Ok(_) => panic!("Embassy needs a spawner"),
    }
    assert!(blocking_unsupported_error().to_string().starts_with("Embassy blocking operation not supported: Embassy executors"));
}

#[test]
fn checked_mean_detects_overflow() {
    let mut meter = LatencyMeter::new();
    assert_eq!(meter.checked_mean(), Some(Duration::ZERO));
    meter.record(Duration::from_nanos(10));
    meter.record(Duration::from_nanos(21));
    assert_eq!(meter.checked_mean(), Some(Duration::from_nanos(15)));
}

#[test]
fn peak_never_below_allocated() {
    let mut allocator = TrackingAllocator::new();
    allocator.record_allocation(40);
    allocator.record_deallocation(40);
    allocator.record_allocation(10);
    assert_eq!(allocator.allocated_bytes(), 50);
    assert_eq!(allocator.peak_allocation(), 50);
    assert!(allocator.peak_allocation() >= allocator.allocated_bytes());
}

#[test]
fn extremes_and_mean_of_samples() {
    let mut meter = LatencyMeter::new();
    for n in [300u64, 100, 400, 200] {
        meter.record(Duration::from_nanos(n));
    }
    assert_eq!(
        meter.extremes_and_mean(),
        (Duration::from_nanos(100), Duration::from_nanos(400), Duration::from_nanos(250))
    );
    assert_eq!(LatencyMeter::new().extremes_and_mean(), (Duration::ZERO, Duration::ZERO, Duration::ZERO));
}

#[test]
fn order_statistics_of_durations() {
    let odd = order_statistics(&vec![30, 10, 20]);
    assert_eq!(odd, OrderStatistics { min: 10, max: 30, median: Median::Middle(20) });
    let even = order_statistics(&vec![4_000, 1_000, 3_000, 2_000]);
    assert_eq!(even, OrderStatistics { min: 1_000, max: 4_000, median: Median::Average(2_500) });
    let single = order_statistics(&vec![7]);
    assert_eq!(single, OrderStatistics { min: 7, max: 7, median: Median::Middle(7) });
    let huge = order_statistics(&vec![u128::MAX, u128::MAX - 1]);
    assert_eq!(huge.median, Median::Average(u64::MAX));
}

fn entry(name: &str, mps: u64, p99_nanos: u128, bytes: usize) -> LeaderEntry {
    LeaderEntry {
        name: name.to_string(),
        messages_per_second: mps,
        p99_nanos,
        bytes_per_actor: bytes,
    }
}

#[test]
fn leaderboard_picks_leaders_and_breaks_ties() {
    let latest = vec![entry("alpha", 500, 9_000, 64), entry("beta", 900, 2_000, 64), entry("gamma", 900, 2_000, 32)];
    assert_eq!(
        leaderboard_text(&latest),
        "🏆 Performance Leaderboard\n=======================\n\n🥇 Highest Throughput: gamma (900 msg/s)\n🥈 Best Latency: beta (p99: 2µs)\n🥉 Most Memory Efficient: gamma (32 bytes/actor)\n"
    );
    assert_eq!(leaderboard_text(&vec![]), "🏆 Performance Leaderboard\n=======================\n\n");
}

#[test]
fn throughput_counts_messages_per_second() {
    assert_eq!(throughput_per_second(50, 5_000_000), 10_000);
    assert_eq!(throughput_per_second(3_000, 1_500_000_000), 2_000);
    assert_eq!(throughput_per_second(7, 2_000_000_000), 3);
    assert_eq!(throughput_per_second(50, 0), u64::MAX);
    assert_eq!(throughput_per_second(u64::MAX, 1), u64::MAX);
    assert_eq!(throughput_per_second(0, 1_000), 0);
}

use grove::metrics::{CommandMetrics, SampleRing, SamplingState, DEFAULT_SAMPLE_COMMAND_INTERVAL};
use std::time::{Duration, Instant};

#[test]
fn test_command_metrics_basic() {
    let mut metrics: CommandMetrics<3> = CommandMetrics::new();

    // Enqueue some commands
    metrics.inc_enqueued(0);
    metrics.inc_enqueued(0);
    metrics.inc_enqueued(1);

    assert_eq!(metrics.command_depth(0), 2);
    assert_eq!(metrics.command_depth(1), 1);
    assert_eq!(metrics.command_depth(2), 0);
    assert_eq!(metrics.total_depth(), 3);

    // Process some
    metrics.inc_processed(0);

    assert_eq!(metrics.command_depth(0), 1);
    assert_eq!(metrics.total_depth(), 2);
}

#[test]
fn test_sample_ring() {
    let mut ring = SampleRing::with_capacity(5);

    ring.push(10);
    ring.push(20);
    ring.push(30);

    let (sum, max, count) = ring.stats_since(Instant::now() - Duration::from_secs(1));
    let mean = sum as f64 / count as f64;
    assert_eq!(count, 3);
    assert_eq!(max, 30);
    assert!((mean - 20.0).abs() < 0.001);
}

#[test]
fn test_sample_ring_overflow() {
    let mut ring = SampleRing::with_capacity(3);

    ring.push(1);
    ring.push(2);
    ring.push(3);
    ring.push(4); // overwrites 1

    let samples: Vec<_> = ring.iter().into_iter().map(|(_, d)| d).collect();
    assert_eq!(samples, vec![4, 3, 2]);
}

#[test]
fn test_sampling_state() {
    let mut state = SamplingState::new();
    state.command_interval = 10;
    state.time_interval = Duration::from_secs(1).as_nanos();

    // Not enough commands yet
    for _ in 0..9 {
        state.inc_command();
        assert!(!state.should_sample());
    }

    // 10th command triggers
    state.inc_command();
    assert!(state.should_sample());

    state.reset();
    assert!(!state.should_sample());
}

#[test]
fn command_counters_are_per_command() {
    let mut metrics: CommandMetrics<2> = CommandMetrics::new();
    metrics.inc_enqueued(1);
    metrics.inc_enqueued(1);
    metrics.inc_processed(1);
    assert_eq!(metrics.command_enqueued(0), 0);
    assert_eq!(metrics.command_enqueued(1), 2);
    assert_eq!(metrics.command_processed(1), 1);
    assert_eq!(metrics.command_processed(0), 0);
    assert_eq!(metrics.total_enqueued(), 2);
    assert_eq!(metrics.total_processed(), 1);
}

#[test]
fn depth_saturates_when_more_processed() {
    let mut metrics: CommandMetrics<1> = CommandMetrics::new();
    metrics.inc_processed(0);
    assert_eq!(metrics.command_depth(0), 0);
    assert_eq!(metrics.total_depth(), 0);
}

#[test]
fn total_depth_is_sum_of_command_depths() {
    let mut metrics: CommandMetrics<3> = CommandMetrics::new();
    for i in 0..3 {
        for _ in 0..(i + 2) {
            metrics.inc_enqueued(i);
        }
        metrics.inc_processed(i);
    }
    let sum: u64 = (0..3).map(|i| metrics.command_depth(i)).sum();
    assert_eq!(metrics.total_depth(), sum);
    assert_eq!(sum, 1 + 2 + 3);
}

#[test]
fn enqueue_then_process_keeps_depth() {
    let mut metrics: CommandMetrics<1> = CommandMetrics::new();
    metrics.inc_enqueued(0);
    let before = metrics.command_depth(0);
    metrics.inc_enqueued(0);
    assert_eq!(metrics.command_depth(0), before + 1);
    metrics.inc_processed(0);
    assert_eq!(metrics.command_depth(0), before);
}

#[test]
fn record_sample_pushes_total_depth() {
    let mut metrics: CommandMetrics<2> = CommandMetrics::default();
    metrics.inc_enqueued(0);
    metrics.record_sample();
    metrics.inc_enqueued(1);
    metrics.inc_enqueued(1);
    metrics.record_sample();
    let depths: Vec<u64> = metrics.sample_ring().iter().into_iter().map(|(_, d)| d).collect();
    assert_eq!(depths, vec![3, 1]);
}

#[test]
fn ring_keeps_at_most_capacity_newest_first() {
    let mut ring = SampleRing::with_capacity(2);
    assert!(ring.iter().is_empty());
    ring.push(7);
    let first: Vec<u64> = ring.iter().into_iter().map(|(_, d)| d).collect();
    assert_eq!(first, vec![7]);
    ring.push(8);
    ring.push(9);
    let all: Vec<u64> = ring.iter().into_iter().map(|(_, d)| d).collect();
    assert_eq!(all, vec![9, 8]);
}

#[test]
fn window_stats_stop_at_older_samples() {
    let mut ring = SampleRing::new();
    ring.push_at(100, 5);
    ring.push_at(200, 9);
    ring.push_at(300, 4);
    // Newest first: (300, 4), (200, 9), (100, 5).
    assert_eq!(ring.stats_since_nanos(0), (18, 9, 3));
    assert_eq!(ring.stats_since_nanos(150), (13, 9, 2));
    assert_eq!(ring.stats_since_nanos(300), (4, 4, 1));
    assert_eq!(ring.stats_since_nanos(301), (0, 0, 0));
}

#[test]
fn window_stats_of_empty_ring() {
    let ring = SampleRing::with_capacity(4);
    assert_eq!(ring.stats_since_nanos(0), (0, 0, 0));
}

#[test]
fn sampling_state_defaults() {
    let state = SamplingState::default();
    assert_eq!(state.commands_since_sample, 0);
    assert_eq!(state.command_interval, DEFAULT_SAMPLE_COMMAND_INTERVAL);
    assert_eq!(state.time_interval, Duration::from_millis(100).as_nanos());
}

#[test]
fn sample_due_by_count_or_time() {
    assert!(grove::metrics::sample_due(100, 100, 0, 1_000));
    assert!(!grove::metrics::sample_due(99, 100, 999, 1_000));
    assert!(grove::metrics::sample_due(0, 100, 1_000, 1_000));
}

#[test]
fn sampling_state_samples_after_time_interval() {
    let mut state = SamplingState::new();
    state.time_interval = Duration::from_millis(0).as_nanos();
    assert!(state.should_sample());
}

#[test]
fn account_processed_samples_every_interval() {
    let mut metrics: CommandMetrics<2> = CommandMetrics::new();
    let mut sampling = SamplingState::new();
    sampling.command_interval = 3;
    sampling.time_interval = Duration::from_secs(3600).as_nanos();
    for _ in 0..5 {
        metrics.inc_enqueued(1);
    }
    let mut sampled = Vec::new();
    for _ in 0..5 {
        sampled.push(metrics.account_processed(&mut sampling, 1));
    }
    assert_eq!(sampled, vec![false, false, true, false, false]);
    assert_eq!(sampling.commands_since_sample, 2);
    assert_eq!(metrics.command_processed(1), 5);
    let depths: Vec<u64> = metrics.sample_ring().iter().into_iter().map(|(_, d)| d).collect();
    assert_eq!(depths, vec![2]);
}

#[test]
fn many_increments_add_up() {
    let mut metrics: CommandMetrics<1> = CommandMetrics::new();
    for _ in 0..1000 {
        metrics.inc_enqueued(0);
    }
    assert_eq!(metrics.command_enqueued(0), 1000);
}

#[test]
fn ring_keeps_last_pushes_of_many() {
    let mut ring = SampleRing::new();
    for d in 0..1000u64 {
        ring.push(d);
    }
    let depths: Vec<u64> = ring.iter().into_iter().map(|(_, d)| d).collect();
    assert_eq!(depths.len(), 600);
    assert_eq!(depths[0], 999);
    assert_eq!(depths[599], 400);
}

#[test]
fn earlier_cutoff_sees_more() {
    let mut ring = SampleRing::with_capacity(8);
    ring.push_at(10, 7);
    ring.push_at(20, 2);
    ring.push_at(30, 5);
    let early = ring.stats_since_nanos(15);
    let late = ring.stats_since_nanos(25);
    assert!(early.2 >= late.2 && early.1 >= late.1);
    assert_eq!(ring.stats_since_nanos(30), (5, 5, 1));
}

#[test]
fn window_in_time_order_counts_every_sample_since_cutoff() {
    let mut ring = SampleRing::with_capacity(5);
    for (at, depth) in [(10u128, 1u64), (20, 2), (30, 3), (40, 4)] {
        ring.push_at(at, depth);
    }
    assert_eq!(ring.stats_since_nanos(20), (9, 4, 3));
    assert_eq!(ring.stats_since_nanos(10), (10, 4, 4));
    assert_eq!(ring.stats_since_nanos(41), (0, 0, 0));
}

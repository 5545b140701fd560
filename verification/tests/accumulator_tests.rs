use sampler_core::accumulator::Accumulator;

#[test]
fn finish_without_latencies_leaves_rate_at_sentinel() {
    let acc = Accumulator::new();
    let s = acc.finish();
    assert_eq!(s.requests_per_second_milli, 0);
    assert!(s.latencies.is_empty());
}

#[test]
fn finish_computes_rate_from_count_and_total_time() {
    let mut acc = Accumulator::new();
    // Three requests taking 60 ms in all: 50 requests per second.
    acc.record_latency(10_000);
    acc.record_latency(20_000);
    acc.record_latency(30_000);
    let s = acc.finish();
    assert_eq!(s.requests_per_second_milli, 50_000);
    assert_eq!(s.latencies, vec![10_000, 20_000, 30_000]);
}

#[test]
fn finish_with_only_zero_latencies_leaves_rate_at_sentinel() {
    let mut acc = Accumulator::new();
    acc.record_latency(0);
    acc.record_latency(0);
    let s = acc.finish();
    assert_eq!(s.requests_per_second_milli, 0);
    assert_eq!(s.latencies.len(), 2);
}

#[test]
fn length_recording_grows_contiguously_from_zero() {
    let mut acc = Accumulator::new();
    acc.record_latency_for_length(5, 7_000);
    let s = acc.finish();
    assert_eq!(s.latencies_by_length.len(), 6);
    for l in 0..5 {
        assert!(s.latencies_by_length[l].is_empty());
    }
    assert_eq!(s.latencies_by_length[5], vec![7_000]);
}

#[test]
fn length_recording_appends_to_existing_entries() {
    let mut acc = Accumulator::new();
    acc.record_latency_for_length(2, 1_000);
    acc.record_latency_for_length(1, 2_000);
    acc.record_latency_for_length(2, 3_000);
    let s = acc.finish();
    assert_eq!(s.latencies_by_length.len(), 3);
    assert!(s.latencies_by_length[0].is_empty());
    assert_eq!(s.latencies_by_length[1], vec![2_000]);
    assert_eq!(s.latencies_by_length[2], vec![1_000, 3_000]);
}

#[test]
fn error_counts_accumulate_per_status() {
    let mut acc = Accumulator::new();
    acc.record_error(500);
    acc.record_error(404);
    acc.record_error(500);
    let s = acc.finish();
    let mut got500 = 0u64;
    let mut got404 = 0u64;
    for (status, count) in &s.errors {
        if *status == 500 {
            got500 = *count;
        }
        if *status == 404 {
            got404 = *count;
        }
    }
    assert_eq!(got500, 2);
    assert_eq!(got404, 1);
    assert_eq!(s.errors.len(), 2);
}

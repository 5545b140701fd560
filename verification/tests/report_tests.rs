use sampler_core::accumulator::Accumulator;
use sampler_core::histogram::summarize_latencies;
use sampler_core::merge::merge_samples;
use sampler_core::profile::length_profile;
use sampler_core::report::{collect_and_report, mean_rate, ReportError};
use sampler_core::sample::SampleSet;

fn worker(latencies: &[u64], errors: &[u16]) -> SampleSet {
    let mut acc = Accumulator::new();
    for l in latencies {
        acc.record_latency(*l);
    }
    for e in errors {
        acc.record_error(*e);
    }
    acc.finish()
}

#[test]
fn merged_latency_count_is_sum_of_worker_counts() {
    let a = worker(&[1_000, 2_000], &[]);
    let b = worker(&[3_000], &[]);
    let c = worker(&[4_000, 5_000, 6_000], &[]);
    let md = merge_samples(vec![Some(a), Some(b), Some(c)]);
    assert_eq!(md.latencies.len(), 6);
    assert_eq!(md.latencies, vec![1_000, 2_000, 3_000, 4_000, 5_000, 6_000]);
}

#[test]
fn failed_workers_are_omitted_from_the_merge() {
    let a = worker(&[1_000], &[502]);
    let md = merge_samples(vec![None, Some(a), None]);
    assert_eq!(md.latencies, vec![1_000]);
    assert_eq!(md.worker_rates.len(), 1);
    assert_eq!(md.errors, vec![(502, 1)]);
}

#[test]
fn all_workers_failing_yields_no_successful_samples() {
    let r = collect_and_report(vec![None, None, None]);
    assert_eq!(r.err(), Some(ReportError::NoSuccessfulSamples));
}

#[test]
fn error_only_workers_yield_no_successful_samples() {
    let a = worker(&[], &[500]);
    let b = worker(&[], &[503]);
    let r = collect_and_report(vec![Some(a), Some(b)]);
    assert_eq!(r.err(), Some(ReportError::NoSuccessfulSamples));
}

#[test]
fn three_workers_end_to_end() {
    // Three workers, each recording 10 ms, 20 ms, 30 ms and one error 500:
    // nine latencies in all, errors[500] == 3, and each worker's rate is
    // 3 / 0.06 s = 50/s, so the unweighted average is 50/s as well.
    let mut handed = Vec::new();
    for _ in 0..3 {
        handed.push(Some(worker(&[10_000, 20_000, 30_000], &[500])));
    }
    let report = collect_and_report(handed).unwrap();
    assert_eq!(report.total_requests, 9);
    assert_eq!(report.avg_requests_per_second_milli, 50_000);
    assert_eq!(report.errors, vec![(500, 3)]);
    assert_eq!(report.summary.count, 9);
}

#[test]
fn histogram_summary_matches_hand_computed_statistics() {
    // 1 ms, 2 ms, 3 ms repeated 1000 times each: mean 2 ms, min 1 ms,
    // max 3 ms, up to the histogram's two significant digits (about 1%).
    let mut lat = Vec::new();
    for _ in 0..1000 {
        lat.push(1_000);
        lat.push(2_000);
        lat.push(3_000);
    }
    let s = summarize_latencies(&lat).unwrap();
    assert_eq!(s.count, 3000);
    assert!(s.mean_micros >= 1980 && s.mean_micros <= 2020, "mean {}", s.mean_micros);
    assert!(s.min_micros >= 990 && s.min_micros <= 1010, "min {}", s.min_micros);
    assert!(s.max_micros >= 2990 && s.max_micros <= 3030, "max {}", s.max_micros);
    // Hand-computed stdev of the quantized sample set is about 816 us.
    assert!(s.stdev_micros >= 800 && s.stdev_micros <= 832, "stdev {}", s.stdev_micros);
}

#[test]
fn zero_duration_samples_count_but_do_not_enter_the_histogram() {
    let s = summarize_latencies(&vec![0, 0, 5_000]).unwrap();
    assert_eq!(s.count, 3);
    assert!(s.min_micros >= 4_950 && s.min_micros <= 5_000, "min {}", s.min_micros);
    assert!(s.max_micros >= 5_000 && s.max_micros <= 5_060, "max {}", s.max_micros);
}

#[test]
fn sample_beyond_one_hour_overflows_the_histogram() {
    let r = summarize_latencies(&vec![1_000, 3_600_000_001]);
    assert_eq!(r.err(), Some(ReportError::HistogramOverflow));
}

#[test]
fn sample_at_exactly_one_hour_is_still_trackable() {
    let r = summarize_latencies(&vec![3_600_000_000]);
    assert!(r.is_ok());
}

#[test]
fn overflow_surfaces_through_the_full_report() {
    let a = worker(&[3_600_000_001], &[]);
    let r = collect_and_report(vec![Some(a)]);
    assert_eq!(r.err(), Some(ReportError::HistogramOverflow));
}

#[test]
fn length_profile_averages_in_whole_milliseconds() {
    // Length 2 saw 100 ms and 200 ms (average 150 ms); length 3 saw nothing.
    let by_length = vec![
        Vec::new(),
        Vec::new(),
        vec![100_000, 200_000],
        Vec::new(),
    ];
    let profile = length_profile(&by_length);
    assert_eq!(profile, vec![0, 150, 0]);
}

#[test]
fn length_profile_through_the_full_report() {
    let mut acc = Accumulator::new();
    acc.record_latency(100_000);
    acc.record_latency(200_000);
    acc.record_latency_for_length(2, 100_000);
    acc.record_latency_for_length(2, 200_000);
    acc.record_latency_for_length(5, 300_000);
    let report = collect_and_report(vec![Some(acc.finish())]).unwrap();
    // Lengths 1..=5: only 2 and 5 have samples, length 3 reports 0.
    assert_eq!(report.profile, vec![0, 150, 0, 0, 300]);
}

#[test]
fn empty_length_table_yields_empty_profile() {
    let profile = length_profile(&Vec::new());
    assert!(profile.is_empty());
}

#[test]
fn mean_rate_is_unweighted_over_workers() {
    assert_eq!(mean_rate(&vec![50_000, 100_000]), 75_000);
    assert_eq!(mean_rate(&Vec::new()), 0);
    // Truncating integer mean.
    assert_eq!(mean_rate(&vec![1, 2]), 1);
}

#[test]
fn merge_is_order_independent_in_the_statistics() {
    let a = || worker(&[10_000, 20_000], &[500]);
    let b = || worker(&[30_000], &[404, 500]);
    let one = collect_and_report(vec![Some(a()), Some(b())]).unwrap();
    let two = collect_and_report(vec![Some(b()), Some(a())]).unwrap();
    assert_eq!(one.total_requests, two.total_requests);
    assert_eq!(
        one.avg_requests_per_second_milli,
        two.avg_requests_per_second_milli
    );
    assert_eq!(one.summary.mean_micros, two.summary.mean_micros);
    assert_eq!(one.summary.min_micros, two.summary.min_micros);
    assert_eq!(one.summary.max_micros, two.summary.max_micros);
    let count = |r: &sampler_core::report::RunReport, k: u16| {
        r.errors
            .iter()
            .find(|(s, _)| *s == k)
            .map(|(_, c)| *c)
            .unwrap_or(0)
    };
    assert_eq!(count(&one, 500), 2);
    assert_eq!(count(&two, 500), 2);
    assert_eq!(count(&one, 404), count(&two, 404));
}

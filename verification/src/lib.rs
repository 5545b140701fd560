//! Sampling and aggregation engine for a concurrent load-testing harness.
//!
//! Each worker owns one [`accumulator::Accumulator`] and records request
//! latencies (in whole microseconds), latencies keyed by query length, and
//! error status counts. When a worker finishes, its accumulator is consumed
//! and frozen into a [`sample::SampleSet`]. The aggregation side merges all
//! finished sample sets into one [`merge::MergedDataset`], derives summary
//! statistics through a bounded log-linear histogram, and computes the
//! per-query-length average-latency profile that drives the report chart.

pub mod accumulator;
pub mod errors;
pub mod histogram;
pub mod merge;
pub mod profile;
pub mod report;
pub mod sample;

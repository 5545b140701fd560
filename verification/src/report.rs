//! The reporting error taxonomy and the final run report: the single entry
//! point that merges every worker's hand-off, derives the histogram summary,
//! the average throughput and the per-length profile, and fails exactly when
//! the merged data admits no statistics.

use vstd::prelude::*;
use crate::errors::{count_of, keys_unique};
use crate::histogram::{all_trackable, summarize_latencies, HistogramSummary};
use crate::merge::{
    all_wf, merge_samples, merged_by_length_at, merged_by_length_len, merged_error_count,
    merged_latencies, merged_rates, received,
};
use crate::profile::{avg_millis, length_profile};
use crate::sample::SampleSet;

verus! {

/// Why the reporting phase failed. A worker that never hands its sample set
/// off is not an error here: its contribution is silently omitted.
#[derive(Debug, PartialEq, Eq, Structural, Clone, Copy)]
pub enum ReportError {
    /// The merged latency set was empty: no statistics can be derived.
    NoSuccessfulSamples,
    /// A latency sample exceeded the histogram's maximum trackable value.
    HistogramOverflow,
}

/// Sum of per-worker throughput rates (thousandths of requests per second).
pub open spec fn sum_rates(s: Seq<u64>) -> int
    decreases s.len(),
{
    if s.len() == 0 {
        0
    } else {
        sum_rates(s.drop_last()) + s.last()
    }
}

/// The unweighted mean of the per-worker throughput rates, as the original
/// tool reports it (each worker's rate counts once, however many requests it
/// sent); 0 when no worker contributed.
pub open spec fn avg_rate_milli(s: Seq<u64>) -> int {
    if s.len() == 0 {
        0
    } else {
        sum_rates(s) / s.len() as int
    }
}

/// Unfolds the rate sum of a one-longer prefix.
proof fn lemma_sum_rates_take_step(s: Seq<u64>, i: int)
    requires
        0 <= i < s.len(),
    ensures
        sum_rates(s.take(i + 1)) == sum_rates(s.take(i)) + s[i],
{
    assert(s.take(i + 1).drop_last() =~= s.take(i));
    assert(s.take(i + 1).last() == s[i]);
}

/// The unweighted mean of the per-worker rates.
pub fn mean_rate(rates: &Vec<u64>) -> (r: u64)
    ensures
        r == avg_rate_milli(rates@),
{
    let n = rates.len();
    let mut sum: u128 = 0;
    let mut i: usize = 0;
    proof {
        assert(rates@.take(0) =~= Seq::<u64>::empty());
    }
    while i < n
        invariant
            i <= n,
            n == rates@.len(),
            sum == sum_rates(rates@.take(i as int)),
            sum <= i * (u64::MAX as int),
        decreases n - i,
    {
        proof {
            lemma_sum_rates_take_step(rates@, i as int);
            assert((i + 1) * (u64::MAX as int) == i * (u64::MAX as int) + u64::MAX)
                by (nonlinear_arith);
            assert((i + 1) * (u64::MAX as int) <= 0x1_0000_0000_0000_0000 * (u64::MAX as int))
                by (nonlinear_arith)
                requires
                    i + 1 <= 0x1_0000_0000_0000_0000,
            ;
        }
        sum = sum + (rates[i] as u128);
        i = i + 1;
    }
    proof {
        assert(rates@.take(n as int) =~= rates@);
    }
    if n == 0 {
        0
    } else {
        proof {
            assert((sum as int) / (n as int) <= u64::MAX) by (nonlinear_arith)
                requires
                    0 < n,
                    sum <= n * (u64::MAX as int),
            ;
        }
        (sum / (n as u128)) as u64
    }
}

/// Everything the report emitter logs at the end of a run, plus the data the
/// chart is drawn from. All latency figures are in whole microseconds; the
/// profile entries are whole milliseconds.
pub struct RunReport {
    /// Total successful requests over all workers, zero-duration ones included.
    pub total_requests: usize,
    /// Unweighted mean of the workers' rates, in thousandths of requests/s.
    pub avg_requests_per_second_milli: u64,
    /// Histogram-derived mean/min/max/stdev latency.
    pub summary: HistogramSummary,
    /// Aggregate occurrence count per HTTP error status.
    pub errors: Vec<(u16, u64)>,
    /// Average latency (ms) per query length, for lengths 1 and up.
    pub profile: Vec<u64>,
}

/// Merges all hand-off results and derives the full report. Fails with
/// `NoSuccessfulSamples` exactly when the merged latency set is empty, and
/// with `HistogramOverflow` exactly when some merged sample exceeds the
/// histogram's trackable range; otherwise every reported quantity is fixed by
/// the received sample sets.
pub fn collect_and_report(samples: Vec<Option<SampleSet>>) -> (r: Result<RunReport, ReportError>)
    requires
        all_wf(samples@),
    ensures
        ({
            let rcv = received(samples@);
            let lat = merged_latencies(rcv);
            &&& (r is Err && r->Err_0 == ReportError::NoSuccessfulSamples) <==> lat.len() == 0
            &&& (r is Err && r->Err_0 == ReportError::HistogramOverflow) <==> (lat.len() > 0
                && !all_trackable(lat))
            &&& r is Ok <==> (lat.len() > 0 && all_trackable(lat))
            &&& (r is Ok ==> {
                let rep = r->Ok_0;
                &&& rep.total_requests == lat.len()
                &&& rep.summary.matches(lat)
                &&& rep.avg_requests_per_second_milli == avg_rate_milli(merged_rates(rcv))
                &&& keys_unique(rep.errors@)
                &&& (forall|k: u16|
                    #[trigger] count_of(rep.errors@, k) == merged_error_count(rcv, k))
                &&& rep.profile@.len() == (if merged_by_length_len(rcv) == 0 {
                    0int
                } else {
                    merged_by_length_len(rcv) - 1
                })
                &&& (forall|i: int|
                    0 <= i < rep.profile@.len() ==> rep.profile@[i] == avg_millis(
                        merged_by_length_at(rcv, i + 1),
                    ))
            })
        }),
{
    let md = merge_samples(samples);
    if md.latencies.len() == 0 {
        return Err(ReportError::NoSuccessfulSamples);
    }
    let summary = match summarize_latencies(&md.latencies) {
        Ok(s) => s,
        Err(e) => {
            return Err(e);
        },
    };
    let avg = mean_rate(&md.worker_rates);
    let profile = length_profile(&md.latencies_by_length);
    let total = md.latencies.len();
    Ok(
        RunReport {
            total_requests: total,
            avg_requests_per_second_milli: avg,
            summary,
            errors: md.errors,
            profile,
        },
    )
}

} // verus!

//! Statistical summary of the merged latencies through a bounded log-linear
//! histogram of the `hdrhistogram` crate. The histogram covers 1 microsecond
//! up to one hour with two significant decimal digits of resolution; samples
//! of zero microseconds are left out of the histogram (they denote unmeasured
//! requests) but still count toward the request total.

use vstd::prelude::*;
use vstd::multiset::Multiset;
use crate::report::ReportError;

verus! {

/// The largest latency, in microseconds, the summary histogram tracks: one
/// hour. A sample above it is a measurement bug or a pathological run and
/// surfaces as `ReportError::HistogramOverflow`.
pub const MAX_TRACKABLE_MICROS: u64 = 3_600_000_000;

/// The histogram's lowest discernible value, in microseconds.
pub const LOWEST_DISCERNIBLE_MICROS: u64 = 1;

/// Significant decimal digits of resolution kept by the histogram.
pub const HIST_SIGFIGS: u8 = 2;

/// The summary histogram, held opaquely: Verus cannot declare
/// `hdrhistogram::Histogram` itself (its type parameter is bound by the
/// crate's `Counter` trait), so the collection lives in a hidden field and is
/// reached only through the trusted wrappers below.
#[verifier::external_body]
pub struct LatencyHistogram {
    inner: hdrhistogram::Histogram<u64>,
}

#[verifier::external_type_specification]
#[verifier::external_body]
pub struct ExCreationError(hdrhistogram::CreationError);

#[verifier::external_type_specification]
#[verifier::external_body]
pub struct ExRecordError(hdrhistogram::RecordError);

/// The multiset of raw values recorded into a histogram.
pub uninterp spec fn hist_values(h: LatencyHistogram) -> Multiset<u64>;

/// The histogram's lowest discernible value.
pub uninterp spec fn hist_low(h: LatencyHistogram) -> u64;

/// The histogram's highest trackable value.
pub uninterp spec fn hist_high(h: LatencyHistogram) -> u64;

/// The histogram's count of significant decimal digits.
pub uninterp spec fn hist_sigfigs(h: LatencyHistogram) -> u8;

/// What `Histogram::min` returns: the lowest recorded value level, up to the
/// histogram's quantization, which is fixed by the recorded values, the
/// lowest discernible value and the significant digits alone.
pub uninterp spec fn hist_min_of(values: Multiset<u64>, low: u64, sigfigs: u8) -> u64;

/// What `Histogram::max` returns: the highest recorded value level, up to the
/// histogram's quantization.
pub uninterp spec fn hist_max_of(values: Multiset<u64>, low: u64, sigfigs: u8) -> u64;

/// What `Histogram::mean` returns, truncated to whole microseconds.
pub uninterp spec fn hist_mean_of(values: Multiset<u64>, low: u64, sigfigs: u8) -> u64;

/// What `Histogram::stdev` returns, truncated to whole microseconds.
pub uninterp spec fn hist_stdev_of(values: Multiset<u64>, low: u64, sigfigs: u8) -> u64;

/// Relies on `hdrhistogram::Histogram::new_with_bounds`: builds an empty
/// histogram with the given bounds and resolution. With a lowest discernible
/// value of 1 the construction cannot fail for any `high >= 2` and
/// `sigfig <= 5`.
#[verifier::external_body]
fn hist_new(low: u64, high: u64, sigfig: u8) -> (r: Result<
    LatencyHistogram,
    hdrhistogram::CreationError,
>)
    ensures
        (low == 1 && high >= 2 && sigfig <= 5) ==> r is Ok,
        r is Ok ==> hist_values(r->Ok_0) == Multiset::<u64>::empty(),
        r is Ok ==> hist_low(r->Ok_0) == low && hist_high(r->Ok_0) == high && hist_sigfigs(
            r->Ok_0,
        ) == sigfig,
{
    match hdrhistogram::Histogram::new_with_bounds(low, high, sigfig) {
        Ok(h) => Ok(LatencyHistogram { inner: h }),
        Err(e) => Err(e),
    }
}

/// Relies on `hdrhistogram::Histogram::auto`: only sets the auto-resize flag;
/// the recorded values and the configured bounds stay as they are.
#[verifier::external_body]
fn hist_auto(h: &mut LatencyHistogram, enabled: bool)
    ensures
        hist_values(*final(h)) == hist_values(*old(h)),
        hist_low(*final(h)) == hist_low(*old(h)),
        hist_high(*final(h)) == hist_high(*old(h)),
        hist_sigfigs(*final(h)) == hist_sigfigs(*old(h)),
{
    h.inner.auto(enabled)
}

/// Relies on `hdrhistogram::Histogram::record`: a value within the trackable
/// range is always recorded; on an error the histogram is untouched. A
/// recording within the old range leaves the configuration as it was (no
/// resize takes place).
#[verifier::external_body]
fn hist_record(h: &mut LatencyHistogram, value: u64) -> (r: Result<
    (),
    hdrhistogram::RecordError,
>)
    ensures
        value <= hist_high(*old(h)) ==> r is Ok,
        r is Ok ==> hist_values(*final(h)) == hist_values(*old(h)).insert(value),
        r is Ok ==> hist_low(*final(h)) == hist_low(*old(h)) && hist_sigfigs(*final(h))
            == hist_sigfigs(*old(h)),
        (r is Ok && value <= hist_high(*old(h))) ==> hist_high(*final(h)) == hist_high(*old(h)),
        r is Err ==> *final(h) == *old(h),
{
    h.inner.record(value)
}

/// Relies on `hdrhistogram::Histogram::min`: the lowest recorded value level,
/// a function of the recorded values and the histogram's resolution; 0 when
/// nothing was recorded.
#[verifier::external_body]
fn hist_min(h: &LatencyHistogram) -> (r: u64)
    ensures
        r == hist_min_of(hist_values(*h), hist_low(*h), hist_sigfigs(*h)),
        hist_values(*h) == Multiset::<u64>::empty() ==> r == 0,
{
    h.inner.min()
}

/// Relies on `hdrhistogram::Histogram::max`: the highest recorded value
/// level, a function of the recorded values and the histogram's resolution.
#[verifier::external_body]
fn hist_max(h: &LatencyHistogram) -> (r: u64)
    ensures
        r == hist_max_of(hist_values(*h), hist_low(*h), hist_sigfigs(*h)),
{
    h.inner.max()
}

/// Relies on `hdrhistogram::Histogram::mean`: the mean of the recorded value
/// levels, a function of the recorded values and the histogram's resolution,
/// truncated here to whole microseconds; 0 when nothing was recorded.
#[verifier::external_body]
fn hist_mean_micros(h: &LatencyHistogram) -> (r: u64)
    ensures
        r == hist_mean_of(hist_values(*h), hist_low(*h), hist_sigfigs(*h)),
        hist_values(*h) == Multiset::<u64>::empty() ==> r == 0,
{
    h.inner.mean() as u64
}

/// Relies on `hdrhistogram::Histogram::stdev`: the standard deviation of the
/// recorded value levels, a function of the recorded values and the
/// histogram's resolution, truncated here to whole microseconds; 0 when
/// nothing was recorded.
#[verifier::external_body]
fn hist_stdev_micros(h: &LatencyHistogram) -> (r: u64)
    ensures
        r == hist_stdev_of(hist_values(*h), hist_low(*h), hist_sigfigs(*h)),
        hist_values(*h) == Multiset::<u64>::empty() ==> r == 0,
{
    h.inner.stdev() as u64
}

/// The multiset of the strictly positive entries of a latency sequence:
/// exactly what the summary histogram records.
pub open spec fn positive_values(s: Seq<u64>) -> Multiset<u64>
    decreases s.len(),
{
    if s.len() == 0 {
        Multiset::empty()
    } else if s.last() > 0 {
        positive_values(s.drop_last()).insert(s.last())
    } else {
        positive_values(s.drop_last())
    }
}

/// Every entry fits the histogram's trackable range.
pub open spec fn all_trackable(s: Seq<u64>) -> bool {
    forall|i: int| 0 <= i < s.len() ==> s[i] <= MAX_TRACKABLE_MICROS
}

/// Unfolds the recorded multiset of a one-longer prefix.
pub proof fn lemma_positive_values_take_step(s: Seq<u64>, i: int)
    requires
        0 <= i < s.len(),
    ensures
        positive_values(s.take(i + 1)) == if s[i] > 0 {
            positive_values(s.take(i)).insert(s[i])
        } else {
            positive_values(s.take(i))
        },
{
    assert(s.take(i + 1).drop_last() =~= s.take(i));
    assert(s.take(i + 1).last() == s[i]);
}

/// Derived latency statistics, in the histogram's native unit (whole
/// microseconds), plus the total count of successful requests. The count
/// includes zero-duration samples; the four statistics do not.
pub struct HistogramSummary {
    pub count: usize,
    pub min_micros: u64,
    pub max_micros: u64,
    pub mean_micros: u64,
    pub stdev_micros: u64,
}

impl HistogramSummary {
    /// What the summary of a latency sequence must hold.
    pub open spec fn matches(self, lat: Seq<u64>) -> bool {
        &&& self.count == lat.len()
        &&& self.min_micros == hist_min_of(
            positive_values(lat),
            LOWEST_DISCERNIBLE_MICROS,
            HIST_SIGFIGS,
        )
        &&& self.max_micros == hist_max_of(
            positive_values(lat),
            LOWEST_DISCERNIBLE_MICROS,
            HIST_SIGFIGS,
        )
        &&& self.mean_micros == hist_mean_of(
            positive_values(lat),
            LOWEST_DISCERNIBLE_MICROS,
            HIST_SIGFIGS,
        )
        &&& self.stdev_micros == hist_stdev_of(
            positive_values(lat),
            LOWEST_DISCERNIBLE_MICROS,
            HIST_SIGFIGS,
        )
    }
}

/// Builds the summary histogram over every strictly positive latency and
/// derives the summary statistics. Fails with `HistogramOverflow` exactly
/// when some sample exceeds the trackable range.
pub fn summarize_latencies(latencies: &Vec<u64>) -> (r: Result<HistogramSummary, ReportError>)
    ensures
        r is Ok <==> all_trackable(latencies@),
        r is Ok ==> r->Ok_0.matches(latencies@),
        r is Err ==> r->Err_0 == ReportError::HistogramOverflow,
{
    let h0 = hist_new(LOWEST_DISCERNIBLE_MICROS, MAX_TRACKABLE_MICROS, HIST_SIGFIGS);
    let mut h = match h0 {
        Ok(h) => h,
        Err(_) => {
            proof {
                assert(false);
            }
            return Err(ReportError::HistogramOverflow);
        },
    };
    hist_auto(&mut h, true);
    let n = latencies.len();
    let mut i: usize = 0;
    proof {
        assert(latencies@.take(0) =~= Seq::<u64>::empty());
    }
    while i < n
        invariant
            i <= n,
            n == latencies@.len(),
            hist_values(h) == positive_values(latencies@.take(i as int)),
            hist_low(h) == LOWEST_DISCERNIBLE_MICROS,
            hist_high(h) == MAX_TRACKABLE_MICROS,
            hist_sigfigs(h) == HIST_SIGFIGS,
            forall|j: int| 0 <= j < i ==> latencies@[j] <= MAX_TRACKABLE_MICROS,
        decreases n - i,
    {
        let v = latencies[i];
        if v > MAX_TRACKABLE_MICROS {
            return Err(ReportError::HistogramOverflow);
        }
        proof {
            lemma_positive_values_take_step(latencies@, i as int);
        }
        if v > 0 {
            let rec = hist_record(&mut h, v);
            match rec {
                Ok(_) => {},
                Err(_) => {
                    proof {
                        assert(false);
                    }
                    return Err(ReportError::HistogramOverflow);
                },
            }
        }
        i = i + 1;
    }
    proof {
        assert(latencies@.take(n as int) =~= latencies@);
    }
    Ok(
        HistogramSummary {
            count: n,
            min_micros: hist_min(&h),
            max_micros: hist_max(&h),
            mean_micros: hist_mean_micros(&h),
            stdev_micros: hist_stdev_micros(&h),
        },
    )
}

} // verus!

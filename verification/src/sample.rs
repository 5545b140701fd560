//! The frozen measurement record of one worker, and the specification of its
//! derived throughput rate.

use vstd::prelude::*;
use crate::errors::keys_unique;

verus! {

/// One worker's finished measurements. `latencies` holds one entry, in whole
/// microseconds, per successfully completed request, in completion order.
/// `latencies_by_length[l]` holds the latencies of requests whose query was
/// `l` terms long; index 0 is a reserved sentinel, and indices are contiguous
/// from 0 up to the longest length observed. `errors` maps an HTTP status
/// code to how often it was seen.
pub struct SampleSet {
    pub latencies: Vec<u64>,
    pub latencies_by_length: Vec<Vec<u64>>,
    pub errors: Vec<(u16, u64)>,
    /// Thousandths of requests per second, fixed at hand-off; 0 is the
    /// sentinel for "no latencies were recorded".
    pub requests_per_second_milli: u64,
}

impl SampleSet {
    pub open spec fn wf(self) -> bool {
        keys_unique(self.errors@)
    }
}

/// The views of a sequence of vectors, element by element.
pub open spec fn views(s: Seq<Vec<u64>>) -> Seq<Seq<u64>> {
    Seq::new(s.len(), |i: int| s[i]@)
}

/// Total of a sequence of microsecond durations, as a mathematical integer.
pub open spec fn sum_micros(s: Seq<u64>) -> int
    decreases s.len(),
{
    if s.len() == 0 {
        0
    } else {
        sum_micros(s.drop_last()) + s.last()
    }
}

/// A sum of non-negative values is non-negative.
pub proof fn lemma_sum_micros_nonneg(s: Seq<u64>)
    ensures
        sum_micros(s) >= 0,
    decreases s.len(),
{
    if s.len() > 0 {
        lemma_sum_micros_nonneg(s.drop_last());
    }
}

/// Unfolds the sum of a one-longer prefix.
pub proof fn lemma_sum_micros_take_step(s: Seq<u64>, i: int)
    requires
        0 <= i < s.len(),
    ensures
        sum_micros(s.take(i + 1)) == sum_micros(s.take(i)) + s[i],
{
    assert(s.take(i + 1).drop_last() =~= s.take(i));
    assert(s.take(i + 1).last() == s[i]);
}

/// The throughput of a finished worker, in thousandths of requests per
/// second: the request count divided by the total elapsed request time,
/// saturating at `u64::MAX`. The sentinel 0 stands both for "no latencies"
/// (the quotient is undefined and must not be computed) and for a total
/// measured time of zero microseconds.
pub open spec fn rate_milli_spec(lat: Seq<u64>) -> u64 {
    if lat.len() == 0 || sum_micros(lat) == 0 {
        0
    } else {
        let r = (lat.len() * 1_000_000_000) as int / sum_micros(lat);
        if r > u64::MAX {
            u64::MAX
        } else {
            r as u64
        }
    }
}

} // verus!

//! The latency-by-query-length profile: for each query length from 1 to the
//! longest observed, the arithmetic mean of that length's samples in whole
//! milliseconds (each sample truncated to milliseconds first, as the chart
//! reports them), or 0 where no samples exist. Index 0 of the merged table is
//! the reserved sentinel and is excluded.

use vstd::prelude::*;

verus! {

/// The largest value a latency sample can contribute in whole milliseconds.
pub const MAX_MILLIS_PER_SAMPLE: u64 = u64::MAX / 1000;

/// Sum of a latency sequence in whole milliseconds, truncating each sample.
pub open spec fn sum_millis(s: Seq<u64>) -> int
    decreases s.len(),
{
    if s.len() == 0 {
        0
    } else {
        sum_millis(s.drop_last()) + s.last() / 1000
    }
}

/// The integer-millisecond average of a latency sequence; 0 when empty.
pub open spec fn avg_millis(s: Seq<u64>) -> int {
    if s.len() == 0 {
        0
    } else {
        sum_millis(s) / s.len() as int
    }
}

/// Unfolds the millisecond sum of a one-longer prefix.
pub proof fn lemma_sum_millis_take_step(s: Seq<u64>, i: int)
    requires
        0 <= i < s.len(),
    ensures
        sum_millis(s.take(i + 1)) == sum_millis(s.take(i)) + s[i] / 1000,
{
    assert(s.take(i + 1).drop_last() =~= s.take(i));
    assert(s.take(i + 1).last() == s[i]);
}

/// Computes the average-latency series over the merged per-length table:
/// entry `i` of the result is the average, in whole milliseconds, for query
/// length `i + 1`. An empty or sentinel-only table yields an empty series.
pub fn length_profile(by_length: &Vec<Vec<u64>>) -> (out: Vec<u64>)
    ensures
        out@.len() == (if by_length@.len() == 0 {
            0int
        } else {
            by_length@.len() - 1
        }),
        forall|i: int| 0 <= i < out@.len() ==> out@[i] == avg_millis(by_length@[i + 1]@),
{
    let mut out: Vec<u64> = Vec::new();
    let n = by_length.len();
    if n == 0 {
        return out;
    }
    let mut i: usize = 1;
    while i < n
        invariant
            1 <= i <= n,
            n == by_length@.len(),
            out@.len() == i - 1,
            forall|x: int| 0 <= x < i - 1 ==> out@[x] == avg_millis(by_length@[x + 1]@),
        decreases n - i,
    {
        let entry = &by_length[i];
        let m = entry.len();
        let mut sum: u128 = 0;
        let mut j: usize = 0;
        proof {
            assert(entry@.take(0) =~= Seq::<u64>::empty());
        }
        while j < m
            invariant
                j <= m,
                m == entry@.len(),
                sum == sum_millis(entry@.take(j as int)),
                sum <= j * (MAX_MILLIS_PER_SAMPLE as int),
            decreases m - j,
        {
            proof {
                lemma_sum_millis_take_step(entry@, j as int);
                assert((j + 1) * (MAX_MILLIS_PER_SAMPLE as int) == j * (
                MAX_MILLIS_PER_SAMPLE as int) + MAX_MILLIS_PER_SAMPLE) by (nonlinear_arith);
                assert((j + 1) * (MAX_MILLIS_PER_SAMPLE as int) <= 0x1_0000_0000_0000_0000 * (
                MAX_MILLIS_PER_SAMPLE as int)) by (nonlinear_arith)
                    requires
                        j + 1 <= 0x1_0000_0000_0000_0000,
                ;
            }
            sum = sum + (entry[j] / 1000) as u128;
            j += 1;
        }
        proof {
            assert(entry@.take(m as int) =~= entry@);
        }
        let avg: u64 = if m == 0 {
            0
        } else {
            proof {
                assert((sum as int) / (m as int) <= MAX_MILLIS_PER_SAMPLE) by (nonlinear_arith)
                    requires
                        0 < m,
                        sum <= m * (MAX_MILLIS_PER_SAMPLE as int),
                ;
            }
            (sum / (m as u128)) as u64
        };
        out.push(avg);
        i += 1;
    }
    out
}

} // verus!

//! The per-worker collector. Exactly one worker owns and mutates an
//! `Accumulator`; `finish` consumes it, fixes the throughput rate once, and
//! yields the frozen `SampleSet`, so no mutation after hand-off is possible.

use vstd::prelude::*;
use crate::errors::{bump_error, count_of, sat_add};
use crate::sample::{
    lemma_sum_micros_nonneg, lemma_sum_micros_take_step, rate_milli_spec, sum_micros, views,
    SampleSet,
};

verus! {

pub struct Accumulator {
    sample: SampleSet,
}

impl View for Accumulator {
    type V = SampleSet;

    closed spec fn view(&self) -> SampleSet {
        self.sample
    }
}

impl Accumulator {
    /// A fresh collector with no recorded samples, no errors, and the
    /// throughput sentinel 0.
    pub fn new() -> (acc: Accumulator)
        ensures
            acc@.wf(),
            acc@.latencies@ == Seq::<u64>::empty(),
            acc@.latencies_by_length@ == Seq::<Vec<u64>>::empty(),
            acc@.errors@ == Seq::<(u16, u64)>::empty(),
            acc@.requests_per_second_milli == 0,
    {
        let acc = Accumulator {
            sample: SampleSet {
                latencies: Vec::new(),
                latencies_by_length: Vec::new(),
                errors: Vec::new(),
                requests_per_second_milli: 0,
            },
        };
        proof {
            assert(acc@.latencies@ =~= Seq::<u64>::empty());
            assert(acc@.latencies_by_length@ =~= Seq::<Vec<u64>>::empty());
            assert(acc@.errors@ =~= Seq::<(u16, u64)>::empty());
        }
        acc
    }

    /// Appends the latency (whole microseconds) of one completed request.
    pub fn record_latency(&mut self, micros: u64)
        ensures
            final(self)@.latencies@ == old(self)@.latencies@.push(micros),
            final(self)@.latencies_by_length == old(self)@.latencies_by_length,
            final(self)@.errors == old(self)@.errors,
            final(self)@.requests_per_second_milli == old(self)@.requests_per_second_milli,
    {
        self.sample.latencies.push(micros);
    }

    /// Appends a latency under its query length, first growing the mapping
    /// with empty entries so that indices stay contiguous from 0 to `length`.
    pub fn record_latency_for_length(&mut self, length: usize, micros: u64)
        requires
            length < usize::MAX,
        ensures
            final(self)@.latencies == old(self)@.latencies,
            final(self)@.errors == old(self)@.errors,
            final(self)@.requests_per_second_milli == old(self)@.requests_per_second_milli,
            views(final(self)@.latencies_by_length@).len() == if length
                < old(self)@.latencies_by_length@.len() {
                old(self)@.latencies_by_length@.len() as int
            } else {
                length + 1
            },
            forall|i: int|
                0 <= i < views(final(self)@.latencies_by_length@).len() && i != length
                    ==> views(final(self)@.latencies_by_length@)[i] == (if i < old(
                    self,
                )@.latencies_by_length@.len() {
                    views(old(self)@.latencies_by_length@)[i]
                } else {
                    Seq::<u64>::empty()
                }),
            views(final(self)@.latencies_by_length@)[length as int] == (if length < old(
                self,
            )@.latencies_by_length@.len() {
                views(old(self)@.latencies_by_length@)[length as int]
            } else {
                Seq::<u64>::empty()
            }).push(micros),
    {
        let ghost b0 = self.sample.latencies_by_length@;
        if length >= self.sample.latencies_by_length.len() {
            let mut i: usize = self.sample.latencies_by_length.len();
            while i < length + 1
                invariant
                    b0.len() <= i <= length + 1,
                    length < usize::MAX,
                    self.sample.latencies_by_length@.len() == i,
                    forall|j: int|
                        0 <= j < b0.len()
                            ==> #[trigger] self.sample.latencies_by_length@[j] == b0[j],
                    forall|j: int|
                        b0.len() <= j < i
                            ==> (#[trigger] self.sample.latencies_by_length@[j])@
                                == Seq::<u64>::empty(),
                    self.sample.latencies == old(self).sample.latencies,
                    self.sample.errors == old(self).sample.errors,
                    self.sample.requests_per_second_milli
                        == old(self).sample.requests_per_second_milli,
                decreases length + 1 - i,
            {
                let fresh: Vec<u64> = Vec::new();
                proof {
                    assert(fresh@ =~= Seq::<u64>::empty());
                }
                self.sample.latencies_by_length.push(fresh);
                i = i + 1;
            }
        }
        let ghost b1 = self.sample.latencies_by_length@;
        let mut inner = self.sample.latencies_by_length.remove(length);
        inner.push(micros);
        self.sample.latencies_by_length.insert(length, inner);
        proof {
            assert(self.sample.latencies_by_length@ =~= b1.update(
                length as int,
                self.sample.latencies_by_length@[length as int],
            ));
        }
    }

    /// Adds one occurrence of an HTTP error status, starting at 1 for a
    /// status not seen before.
    pub fn record_error(&mut self, status: u16)
        requires
            old(self)@.wf(),
        ensures
            final(self)@.wf(),
            final(self)@.latencies == old(self)@.latencies,
            final(self)@.latencies_by_length == old(self)@.latencies_by_length,
            final(self)@.requests_per_second_milli == old(self)@.requests_per_second_milli,
            forall|q: u16|
                #[trigger] count_of(final(self)@.errors@, q) == if q == status {
                    sat_add(count_of(old(self)@.errors@, q), 1)
                } else {
                    count_of(old(self)@.errors@, q)
                },
    {
        bump_error(&mut self.sample.errors, status, 1);
    }

    /// Consumes the collector: computes the throughput rate exactly once and
    /// returns the frozen sample set. With no recorded latencies the rate is
    /// left at the sentinel 0 rather than dividing by zero.
    pub fn finish(self) -> (s: SampleSet)
        ensures
            s.latencies == self@.latencies,
            s.latencies_by_length == self@.latencies_by_length,
            s.errors == self@.errors,
            s.requests_per_second_milli == rate_milli_spec(self@.latencies@),
            self@.wf() ==> s.wf(),
    {
        let lat = &self.sample.latencies;
        let n = lat.len();
        let mut total: u128 = 0;
        let mut i: usize = 0;
        proof {
            assert(lat@.take(0) =~= Seq::<u64>::empty());
        }
        while i < n
            invariant
                i <= n,
                n == lat@.len(),
                total == sum_micros(lat@.take(i as int)),
                total <= i * (u64::MAX as int),
            decreases n - i,
        {
            proof {
                lemma_sum_micros_take_step(lat@, i as int);
                assert((i + 1) * (u64::MAX as int) == i * (u64::MAX as int) + u64::MAX)
                    by (nonlinear_arith);
                assert((i + 1) * (u64::MAX as int) <= 0x1_0000_0000_0000_0000 * (
                u64::MAX as int)) by (nonlinear_arith)
                    requires
                        i + 1 <= 0x1_0000_0000_0000_0000,
                ;
            }
            total = total + (lat[i] as u128);
            i = i + 1;
        }
        proof {
            assert(lat@.take(n as int) =~= lat@);
            lemma_sum_micros_nonneg(lat@);
        }
        let rate: u64 = if n == 0 || total == 0 {
            0
        } else {
            proof {
                assert((n as int) * 1_000_000_000 <= (u64::MAX as int) * 1_000_000_000)
                    by (nonlinear_arith)
                    requires
                        n <= u64::MAX,
                ;
            }
            let num: u128 = (n as u128) * 1_000_000_000;
            let q: u128 = num / total;
            if q > u64::MAX as u128 {
                u64::MAX
            } else {
                q as u64
            }
        };
        let mut sample = self.sample;
        sample.requests_per_second_milli = rate;
        sample
    }
}

} // verus!

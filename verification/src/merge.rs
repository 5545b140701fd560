//! The fan-in: all finished sample sets are merged into one dataset. The
//! merge is order-independent in every quantity the report derives from it —
//! latency counts, per-length samples and error totals are concatenations and
//! saturating sums.

use vstd::prelude::*;
use crate::errors::{
    bump_error, count_of, keys_unique, lemma_count_of_absent, sat_add,
};
use crate::sample::SampleSet;

verus! {

/// All latencies of a sequence of sample sets, in hand-off order.
pub open spec fn merged_latencies(ss: Seq<SampleSet>) -> Seq<u64>
    decreases ss.len(),
{
    if ss.len() == 0 {
        Seq::empty()
    } else {
        merged_latencies(ss.drop_last()) + ss.last().latencies@
    }
}

/// The per-worker throughput rates, one per received sample set.
pub open spec fn merged_rates(ss: Seq<SampleSet>) -> Seq<u64>
    decreases ss.len(),
{
    if ss.len() == 0 {
        Seq::empty()
    } else {
        merged_rates(ss.drop_last()).push(ss.last().requests_per_second_milli)
    }
}

/// The total (saturating) count of error status `k` over all sample sets.
pub open spec fn merged_error_count(ss: Seq<SampleSet>, k: u16) -> u64
    decreases ss.len(),
{
    if ss.len() == 0 {
        0
    } else {
        sat_add(merged_error_count(ss.drop_last(), k), count_of(ss.last().errors@, k))
    }
}

/// How long the merged length-indexed table is: the longest table seen.
pub open spec fn merged_by_length_len(ss: Seq<SampleSet>) -> int
    decreases ss.len(),
{
    if ss.len() == 0 {
        0
    } else {
        let prev = merged_by_length_len(ss.drop_last());
        let cur = ss.last().latencies_by_length@.len() as int;
        if cur > prev {
            cur
        } else {
            prev
        }
    }
}

/// The merged latencies of query length `l`: each worker's entry for `l`,
/// concatenated in hand-off order.
pub open spec fn merged_by_length_at(ss: Seq<SampleSet>, l: int) -> Seq<u64>
    decreases ss.len(),
{
    if ss.len() == 0 {
        Seq::empty()
    } else {
        merged_by_length_at(ss.drop_last(), l) + (if 0 <= l
            < ss.last().latencies_by_length@.len() {
            ss.last().latencies_by_length@[l]@
        } else {
            Seq::<u64>::empty()
        })
    }
}

/// Sum of the latency counts of all sample sets.
pub open spec fn total_latency_count(ss: Seq<SampleSet>) -> int
    decreases ss.len(),
{
    if ss.len() == 0 {
        0
    } else {
        total_latency_count(ss.drop_last()) + ss.last().latencies@.len()
    }
}

/// The merged latency count equals the sum of the workers' latency counts,
/// however many workers there are and whatever they recorded.
pub proof fn lemma_merged_latency_count(ss: Seq<SampleSet>)
    ensures
        merged_latencies(ss).len() == total_latency_count(ss),
    decreases ss.len(),
{
    if ss.len() > 0 {
        lemma_merged_latency_count(ss.drop_last());
    }
}

/// Beyond the merged table's length every merged per-length entry is empty.
pub proof fn lemma_merged_by_length_at_beyond(ss: Seq<SampleSet>, l: int)
    requires
        l >= merged_by_length_len(ss),
    ensures
        merged_by_length_at(ss, l) == Seq::<u64>::empty(),
    decreases ss.len(),
{
    if ss.len() > 0 {
        lemma_merged_by_length_at_beyond(ss.drop_last(), l);
        assert(merged_by_length_at(ss, l) =~= Seq::<u64>::empty());
    }
}

/// The sample sets of the workers that did hand a dataset off, in order; a
/// worker that failed before `finish` contributes nothing.
pub open spec fn received(samples: Seq<Option<SampleSet>>) -> Seq<SampleSet>
    decreases samples.len(),
{
    if samples.len() == 0 {
        Seq::empty()
    } else {
        let prev = received(samples.drop_last());
        match samples.last() {
            Some(s) => prev.push(s),
            None => prev,
        }
    }
}

/// Every received sample set is well formed.
pub open spec fn all_wf(samples: Seq<Option<SampleSet>>) -> bool {
    forall|x: int|
        0 <= x < samples.len() ==> (#[trigger] samples[x] matches Some(s) ==> s.wf())
}

/// The union of all received sample sets, built once and then only read.
pub struct MergedDataset {
    pub latencies: Vec<u64>,
    pub latencies_by_length: Vec<Vec<u64>>,
    pub errors: Vec<(u16, u64)>,
    pub worker_rates: Vec<u64>,
}

impl MergedDataset {
    /// What it means for this dataset to be the merge of the sample sets `ss`.
    pub open spec fn matches(self, ss: Seq<SampleSet>) -> bool {
        &&& self.latencies@ == merged_latencies(ss)
        &&& self.worker_rates@ == merged_rates(ss)
        &&& keys_unique(self.errors@)
        &&& forall|k: u16| #[trigger] count_of(self.errors@, k) == merged_error_count(ss, k)
        &&& self.latencies_by_length@.len() == merged_by_length_len(ss)
        &&& forall|l: int|
            0 <= l < self.latencies_by_length@.len()
                ==> (#[trigger] self.latencies_by_length@[l])@ == merged_by_length_at(ss, l)
    }

    /// An empty dataset: the merge of no sample sets.
    pub fn new() -> (md: MergedDataset)
        ensures
            md.matches(Seq::<SampleSet>::empty()),
    {
        let md = MergedDataset {
            latencies: Vec::new(),
            latencies_by_length: Vec::new(),
            errors: Vec::new(),
            worker_rates: Vec::new(),
        };
        proof {
            assert(md.latencies@ =~= merged_latencies(Seq::<SampleSet>::empty()));
            assert(md.worker_rates@ =~= merged_rates(Seq::<SampleSet>::empty()));
        }
        md
    }

    /// Folds one more finished sample set into the dataset: latencies and
    /// per-length samples are appended, error counts added (saturating), and
    /// the worker's throughput rate remembered.
    pub fn absorb(&mut self, s: SampleSet)
        requires
            keys_unique(old(self).errors@),
            s.wf(),
        ensures
            final(self).latencies@ == old(self).latencies@ + s.latencies@,
            final(self).worker_rates@ == old(self).worker_rates@.push(
                s.requests_per_second_milli,
            ),
            keys_unique(final(self).errors@),
            forall|k: u16|
                #[trigger] count_of(final(self).errors@, k) == sat_add(
                    count_of(old(self).errors@, k),
                    count_of(s.errors@, k),
                ),
            final(self).latencies_by_length@.len() == (if s.latencies_by_length@.len() > old(
                self,
            ).latencies_by_length@.len() {
                s.latencies_by_length@.len() as int
            } else {
                old(self).latencies_by_length@.len() as int
            }),
            forall|l: int|
                0 <= l < final(self).latencies_by_length@.len()
                    ==> (#[trigger] final(self).latencies_by_length@[l])@ == (if l < old(
                    self,
                ).latencies_by_length@.len() {
                    old(self).latencies_by_length@[l]@
                } else {
                    Seq::<u64>::empty()
                }) + (if l < s.latencies_by_length@.len() {
                    s.latencies_by_length@[l]@
                } else {
                    Seq::<u64>::empty()
                }),
    {
        let mut s = s;
        let ghost lat0 = s.latencies@;
        let ghost rate0 = s.requests_per_second_milli;
        let ghost e0 = self.errors@;
        let ghost incoming = s.errors@;
        let ghost b0 = self.latencies_by_length@;
        let ghost bin = s.latencies_by_length@;

        self.latencies.append(&mut s.latencies);
        self.worker_rates.push(s.requests_per_second_milli);

        // Error counts: add each incoming entry into the association list.
        let mut j: usize = 0;
        while j < s.errors.len()
            invariant
                e0 == old(self).errors@,
                incoming == s.errors@,
                keys_unique(e0),
                keys_unique(incoming),
                keys_unique(self.errors@),
                j <= incoming.len(),
                forall|k: u16|
                    #[trigger] count_of(self.errors@, k) == sat_add(
                        count_of(e0, k),
                        count_of(incoming.take(j as int), k),
                    ),
                self.latencies@ == old(self).latencies@ + lat0,
                self.worker_rates@ == old(self).worker_rates@.push(rate0),
                self.latencies_by_length@ == b0,
                b0 == old(self).latencies_by_length@,
                s.latencies_by_length@ == bin,
            decreases s.errors.len() - j,
        {
            let (status, amount) = s.errors[j];
            let ghost pre = self.errors@;
            proof {
                assert(incoming.take(j as int).len() == j);
            }
            bump_error(&mut self.errors, status, amount);
            proof {
                assert(incoming.take(j + 1).drop_last() =~= incoming.take(j as int));
                assert(incoming.take(j + 1).last() == incoming[j as int]);
                assert(!crate::errors::has_key(incoming.take(j as int), status)) by {
                    assert(forall|x: int|
                        0 <= x < j ==> #[trigger] incoming.take(j as int)[x] == incoming[x]);
                }
                lemma_count_of_absent(incoming.take(j as int), status);
                assert forall|k: u16|
                    #[trigger] count_of(self.errors@, k) == sat_add(
                        count_of(e0, k),
                        count_of(incoming.take(j + 1), k),
                    ) by {
                    if k == status {
                        assert(count_of(incoming.take(j as int), k) == 0);
                        assert(count_of(pre, k) == sat_add(count_of(e0, k), 0));
                    }
                }
            }
            j += 1;
        }
        proof {
            assert(incoming.take(incoming.len() as int) =~= incoming);
        }

        // Per-length samples: append entry by entry, growing the table where
        // the incoming worker observed longer queries.
        proof {
            assert forall|x: int| 0 <= x < b0.len() implies (#[trigger] b0[x])@ == b0[x]@
                + Seq::<u64>::empty() by {
                assert(b0[x]@ + Seq::<u64>::empty() =~= b0[x]@);
            }
        }
        let mut l: usize = 0;
        let incoming_len = s.latencies_by_length.len();
        while l < incoming_len
            invariant
                b0 == old(self).latencies_by_length@,
                incoming_len == bin.len(),
                l <= bin.len(),
                s.latencies_by_length@ =~= bin.skip(l as int),
                self.latencies_by_length@.len() == (if l > b0.len() {
                    l as int
                } else {
                    b0.len() as int
                }),
                forall|x: int|
                    0 <= x < self.latencies_by_length@.len()
                        ==> (#[trigger] self.latencies_by_length@[x])@ == (if x < b0.len() {
                        b0[x]@
                    } else {
                        Seq::<u64>::empty()
                    }) + (if x < l { bin[x]@ } else { Seq::<u64>::empty() }),
                self.latencies@ == old(self).latencies@ + lat0,
                self.worker_rates@ == old(self).worker_rates@.push(rate0),
                keys_unique(self.errors@),
                forall|k: u16|
                    #[trigger] count_of(self.errors@, k) == sat_add(
                        count_of(e0, k),
                        count_of(incoming, k),
                    ),
                e0 == old(self).errors@,
            decreases incoming_len - l,
        {
            let ghost cur = self.latencies_by_length@;
            let mut incoming_entry = s.latencies_by_length.remove(0);
            proof {
                assert(incoming_entry@ == bin[l as int]@);
                assert(s.latencies_by_length@ =~= bin.skip(l + 1));
            }
            if l < self.latencies_by_length.len() {
                let mut entry = self.latencies_by_length.remove(l);
                entry.append(&mut incoming_entry);
                self.latencies_by_length.insert(l, entry);
                proof {
                    assert(self.latencies_by_length@ =~= cur.update(
                        l as int,
                        self.latencies_by_length@[l as int],
                    ));
                }
            } else {
                self.latencies_by_length.push(incoming_entry);
            }
            l += 1;
        }
        proof {
            assert(bin.skip(bin.len() as int) =~= Seq::<Vec<u64>>::empty());
        }
    }
}

/// Merges the hand-off results of all registered workers: a `None` is a
/// worker that failed before finishing and is omitted; everything else is
/// folded into one dataset.
pub fn merge_samples(samples: Vec<Option<SampleSet>>) -> (md: MergedDataset)
    requires
        all_wf(samples@),
    ensures
        md.matches(received(samples@)),
{
    let mut samples = samples;
    let ghost all = samples@;
    proof {
        assert(all.len() <= usize::MAX) by {
            assert(samples@.len() == samples.len());
        }
    }
    let mut md = MergedDataset::new();
    let mut i: usize = 0;
    proof {
        assert(all.take(0) =~= Seq::<Option<SampleSet>>::empty());
        assert(received(all.take(0)) =~= Seq::<SampleSet>::empty());
    }
    while samples.len() > 0
        invariant
            all_wf(all),
            all.len() <= usize::MAX,
            i <= all.len(),
            samples@ =~= all.skip(i as int),
            md.matches(received(all.take(i as int))),
        decreases samples.len(),
    {
        let ghost rcv = received(all.take(i as int));
        let s_opt = samples.remove(0);
        proof {
            assert(s_opt == all[i as int]);
            assert(samples@ =~= all.skip(i + 1));
            assert(all.take(i + 1).drop_last() =~= all.take(i as int));
            assert(all.take(i + 1).last() == all[i as int]);
        }
        match s_opt {
            Option::Some(s) => {
                let ghost sv = s;
                proof {
                    assert(all[i as int] matches Some(x) && x == sv);
                }
                md.absorb(s);
                proof {
                    let rcv1 = received(all.take(i + 1));
                    assert(rcv1 == rcv.push(sv));
                    assert(rcv.push(sv).drop_last() =~= rcv);
                    assert(rcv.push(sv).last() == sv);
                    assert(md.latencies@ == merged_latencies(rcv1));
                    assert(md.worker_rates@ == merged_rates(rcv1));
                    assert(forall|k: u16|
                        #[trigger] count_of(md.errors@, k) == merged_error_count(rcv1, k));
                    assert(md.latencies_by_length@.len() == merged_by_length_len(rcv1));
                    assert forall|l: int| 0 <= l < md.latencies_by_length@.len() implies (
                    #[trigger] md.latencies_by_length@[l])@ == merged_by_length_at(rcv1, l) by {
                        if l >= merged_by_length_len(rcv) {
                            lemma_merged_by_length_at_beyond(rcv, l);
                        }
                        assert((md.latencies_by_length@[l])@ =~= merged_by_length_at(rcv1, l));
                    }
                    assert(md.matches(rcv1));
                }
            },
            Option::None => {
                proof {
                    assert(received(all.take(i + 1)) == rcv);
                }
            },
        }
        i += 1;
    }
    proof {
        assert(all.take(all.len() as int) =~= all);
        assert(i == all.len());
    }
    md
}

} // verus!

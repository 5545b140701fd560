//! Error-status counting: an association list from HTTP status code to an
//! occurrence count, with unique keys. Counts saturate at `u64::MAX` instead
//! of wrapping, so recording can never fail.

use vstd::prelude::*;

verus! {

/// Addition of two counts, saturating at `u64::MAX`.
pub open spec fn sat_add(a: u64, b: u64) -> u64 {
    if a + b > u64::MAX {
        u64::MAX
    } else {
        (a + b) as u64
    }
}

/// The count stored for status `k`, or 0 when no entry carries `k`.
/// Scans from the back; with unique keys the position is irrelevant.
pub open spec fn count_of(s: Seq<(u16, u64)>, k: u16) -> u64
    decreases s.len(),
{
    if s.len() == 0 {
        0
    } else if s.last().0 == k {
        s.last().1
    } else {
        count_of(s.drop_last(), k)
    }
}

/// Whether some entry carries status `k`.
pub open spec fn has_key(s: Seq<(u16, u64)>, k: u16) -> bool {
    exists|i: int| 0 <= i < s.len() && s[i].0 == k
}

/// No two entries carry the same status.
pub open spec fn keys_unique(s: Seq<(u16, u64)>) -> bool {
    forall|i: int, j: int| 0 <= i < j < s.len() ==> s[i].0 != s[j].0
}

/// A status that appears nowhere counts 0.
pub proof fn lemma_count_of_absent(s: Seq<(u16, u64)>, k: u16)
    requires
        !has_key(s, k),
    ensures
        count_of(s, k) == 0,
    decreases s.len(),
{
    if s.len() > 0 {
        assert(s.last() == s[s.len() - 1]);
        assert(!has_key(s.drop_last(), k)) by {
            assert(forall|i: int|
                0 <= i < s.drop_last().len() ==> s.drop_last()[i] == s[i]);
        }
        lemma_count_of_absent(s.drop_last(), k);
    }
}

/// With unique keys, the count for `k` is the count stored at the one entry
/// that carries `k`.
pub proof fn lemma_count_of_found(s: Seq<(u16, u64)>, k: u16, i: int)
    requires
        keys_unique(s),
        0 <= i < s.len(),
        s[i].0 == k,
    ensures
        count_of(s, k) == s[i].1,
    decreases s.len(),
{
    assert(s.last() == s[s.len() - 1]);
    if i == s.len() - 1 {
    } else {
        assert(s.last().0 != k);
        assert(s.drop_last()[i] == s[i]);
        lemma_count_of_found(s.drop_last(), k, i);
    }
}

/// Replacing the entry that carries `k` changes only `k`'s count.
pub proof fn lemma_count_of_update(s: Seq<(u16, u64)>, k: u16, v: u64, i: int, q: u16)
    requires
        keys_unique(s),
        0 <= i < s.len(),
        s[i].0 == k,
    ensures
        count_of(s.update(i, (k, v)), q) == if q == k {
            v
        } else {
            count_of(s, q)
        },
    decreases s.len(),
{
    let t = s.update(i, (k, v));
    assert(t.last() == t[s.len() - 1]);
    assert(s.last() == s[s.len() - 1]);
    if i == s.len() - 1 {
        if q != k {
            assert(t.drop_last() =~= s.drop_last());
        }
    } else {
        assert(t.last() == s.last());
        assert(t.drop_last() =~= s.drop_last().update(i, (k, v)));
        assert(s.drop_last()[i] == s[i]);
        lemma_count_of_update(s.drop_last(), k, v, i, q);
        if q == k {
            assert(s.last().0 != k);
        }
    }
}

/// Appending an entry for a fresh key sets that key's count and keeps the rest.
pub proof fn lemma_count_of_push(s: Seq<(u16, u64)>, k: u16, v: u64, q: u16)
    ensures
        count_of(s.push((k, v)), q) == if q == k {
            v
        } else {
            count_of(s, q)
        },
{
    let t = s.push((k, v));
    assert(t.last() == (k, v));
    assert(t.drop_last() =~= s);
}

/// Adds `amount` (saturating) to the count for `status`, inserting a fresh
/// entry when the status was not seen before. Keys stay unique; every other
/// status keeps its count.
pub fn bump_error(entries: &mut Vec<(u16, u64)>, status: u16, amount: u64)
    requires
        keys_unique(old(entries)@),
    ensures
        keys_unique(final(entries)@),
        forall|q: u16|
            #[trigger] count_of(final(entries)@, q) == if q == status {
                sat_add(count_of(old(entries)@, q), amount)
            } else {
                count_of(old(entries)@, q)
            },
{
    let ghost s0 = entries@;
    let mut j: usize = 0;
    while j < entries.len()
        invariant
            s0 == old(entries)@,
            keys_unique(s0),
            entries@ == s0,
            j <= s0.len(),
            forall|jj: int| 0 <= jj < j ==> s0[jj].0 != status,
        decreases entries.len() - j,
    {
        if entries[j].0 == status {
            let c = entries[j].1;
            let bumped: u64 = if c > u64::MAX - amount {
                u64::MAX
            } else {
                c + amount
            };
            entries[j] = (status, bumped);
            proof {
                lemma_count_of_found(s0, status, j as int);
                assert(bumped == sat_add(count_of(s0, status), amount));
                assert forall|q: u16|
                    #[trigger] count_of(entries@, q) == if q == status {
                        sat_add(count_of(s0, q), amount)
                    } else {
                        count_of(s0, q)
                    } by {
                    lemma_count_of_update(s0, status, bumped, j as int, q);
                }
            }
            return;
        }
        j += 1;
    }
    entries.push((status, amount));
    proof {
        assert(!has_key(s0, status));
        lemma_count_of_absent(s0, status);
        assert forall|q: u16|
            #[trigger] count_of(entries@, q) == if q == status {
                sat_add(count_of(s0, q), amount)
            } else {
                count_of(s0, q)
            } by {
            lemma_count_of_push(s0, status, amount, q);
        }
        assert(keys_unique(entries@)) by {
            assert(forall|i: int|
                0 <= i < s0.len() ==> #[trigger] entries@[i] == s0[i]);
        }
    }
}

} // verus!

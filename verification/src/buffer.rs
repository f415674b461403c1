//! Fixed-capacity circular history buffers of closed per-second accumulators,
//! newest first, with the oldest entry evicted on overflow.

use vstd::prelude::*;
use std::collections::VecDeque;
use crate::period::StatsForPeriod;

verus! {

/// The total number of samples recorded across a sequence of accumulators.
pub open spec fn total_count(s: Seq<StatsForPeriod>) -> int
    decreases s.len(),
{
    if s.len() == 0 {
        0
    } else {
        s[0].count + total_count(s.drop_first())
    }
}

/// One insertion at the front of a ring of bound `cap`: the oldest (last)
/// entry is evicted first when the ring is full.
pub open spec fn ring_push(s: Seq<StatsForPeriod>, cap: nat, x: StatsForPeriod) -> Seq<
    StatsForPeriod,
> {
    if s.len() >= cap {
        seq![x] + s.drop_last()
    } else {
        seq![x] + s
    }
}

/// Repeated front insertions: the entries of `xs` are pushed in order, so
/// `xs.last()` ends up newest (at index 0).
pub open spec fn ring_push_all(s: Seq<StatsForPeriod>, cap: nat, xs: Seq<StatsForPeriod>) -> Seq<
    StatsForPeriod,
>
    decreases xs.len(),
{
    if xs.len() == 0 {
        s
    } else {
        ring_push(ring_push_all(s, cap, xs.drop_last()), cap, xs.last())
    }
}

/// Whether an entry starts at or after the optional cutoff time.
fn within(e: &StatsForPeriod, since: &Option<u64>) -> (r: bool)
    ensures
        r == spec_within(*e, *since),
{
    match since {
        Some(t) => e.started_at >= *t,
        None => true,
    }
}

/// Whether an entry starts at or after the optional cutoff time.
pub open spec fn spec_within(e: StatsForPeriod, since: Option<u64>) -> bool {
    match since {
        Some(t) => e.started_at >= t,
        None => true,
    }
}

/// The length of the longest prefix of `s` whose entries all start at or
/// after the optional cutoff time.
pub open spec fn kept_len(s: Seq<StatsForPeriod>, since: Option<u64>) -> int
    decreases s.len(),
{
    if s.len() == 0 {
        0
    } else if spec_within(s[0], since) {
        1 + kept_len(s.drop_first(), since)
    } else {
        0
    }
}

/// A prefix length further bounded by an optional item limit.
pub open spec fn limited_len(n: int, limit: Option<usize>) -> int {
    match limit {
        Some(l) => if l < n {
            l as int
        } else {
            n
        },
        None => n,
    }
}

/// `kept_len` is exactly the cutoff position: everything before it is within
/// the cutoff, and the entry at it (when one exists) is not.
pub proof fn lemma_kept_len(s: Seq<StatsForPeriod>, since: Option<u64>)
    ensures
        0 <= kept_len(s, since) <= s.len(),
        forall|j: int| 0 <= j < kept_len(s, since) ==> spec_within(#[trigger] s[j], since),
        kept_len(s, since) < s.len() ==> !spec_within(s[kept_len(s, since)], since),
    decreases s.len(),
{
    if s.len() > 0 && spec_within(s[0], since) {
        lemma_kept_len(s.drop_first(), since);
        assert forall|j: int| 0 <= j < kept_len(s, since) implies spec_within(
            #[trigger] s[j],
            since,
        ) by {
            if j > 0 {
                assert(s.drop_first()[j - 1] == s[j]);
            }
        }
        if kept_len(s, since) < s.len() {
            assert(s.drop_first()[kept_len(s.drop_first(), since)] == s[kept_len(s, since)]);
        }
    }
}

/// A circular buffer of per-second statistics for one measured quantity.
///
/// The capacity is fixed when the buffer is created and never grows; the
/// entries are kept newest first, and inserting into a full buffer evicts
/// the oldest entry.
pub struct CircularBuffer {
    entries: VecDeque<StatsForPeriod>,
    capacity: usize,
}

impl View for CircularBuffer {
    type V = Seq<StatsForPeriod>;

    /// The entries of the buffer, newest first.
    closed spec fn view(&self) -> Seq<StatsForPeriod> {
        self.entries@
    }
}

impl CircularBuffer {
    /// The fixed capacity the buffer was created with.
    pub closed spec fn spec_capacity(self) -> nat {
        self.capacity as nat
    }

    /// Well-formedness: the capacity is positive, the buffer never holds more
    /// entries than it, and every entry is itself well formed.
    pub open spec fn wf(self) -> bool {
        &&& self.spec_capacity() > 0
        &&& self@.len() <= self.spec_capacity()
        &&& forall|i: int| 0 <= i < self@.len() ==> (#[trigger] self@[i]).wf()
    }

    /// Creates an empty buffer, reserving the whole capacity up front so that
    /// memory use is constant from startup.
    pub fn new(capacity: usize) -> (r: CircularBuffer)
        requires
            capacity >= 1,
        ensures
            r.wf(),
            r@ == Seq::<StatsForPeriod>::empty(),
            r.spec_capacity() == capacity,
    {
        CircularBuffer { entries: VecDeque::with_capacity(capacity), capacity }
    }

    /// The number of entries currently held.
    pub fn len(&self) -> (r: usize)
        ensures
            r == self@.len(),
    {
        self.entries.len()
    }

    /// The capacity the buffer was created with.
    pub fn capacity(&self) -> (r: usize)
        ensures
            r == self.spec_capacity(),
    {
        self.capacity
    }

    /// The entry at position `i`, newest first.
    pub fn entry(&self, i: usize) -> (r: &StatsForPeriod)
        requires
            i < self@.len(),
        ensures
            *r == self@[i as int],
    {
        &self.entries[i]
    }

    /// Returns the most recent entries, newest first: the longest prefix of
    /// entries whose start time is at or after `since` (when given), further
    /// bounded to at most `limit` entries (when given).
    pub fn recent(&self, limit: Option<usize>, since: Option<u64>) -> (r: Vec<StatsForPeriod>)
        ensures
            r@ == self@.take(limited_len(kept_len(self@, since), limit)),
    {
        proof {
            lemma_kept_len(self@, since);
        }
        let mut out: Vec<StatsForPeriod> = Vec::new();
        let n: usize = match limit {
            Some(l) => {
                if l < self.entries.len() {
                    l
                } else {
                    self.entries.len()
                }
            },
            None => self.entries.len(),
        };
        let mut i: usize = 0;
        while i < n && within(&self.entries[i], &since)
            invariant
                0 <= i <= n,
                n <= self@.len(),
                match limit {
                    Some(l) => n == if l < self@.len() {
                        l as int
                    } else {
                        self@.len() as int
                    },
                    None => n == self@.len(),
                },
                forall|j: int| 0 <= j < i ==> spec_within(#[trigger] self@[j], since),
                out@ == self@.take(i as int),
            decreases n - i,
        {
            out.push(self.entries[i]);
            proof {
                assert(out@ =~= self@.take(i + 1));
            }
            i = i + 1;
        }
        proof {
            let kept = kept_len(self@, since);
            if i < n {
                assert(!spec_within(self@[i as int], since));
                assert(kept <= i) by {
                    if kept > i {
                        assert(spec_within(self@[i as int], since));
                    }
                }
            }
            assert(kept >= i) by {
                if kept < i {
                    assert(spec_within(self@[kept], since));
                }
            }
            assert(i as int == limited_len(kept, limit));
        }
        out
    }

    /// Inserts `stats` as the newest entry; when the buffer is full the
    /// oldest entry is removed first.
    pub fn push_front(&mut self, stats: StatsForPeriod)
        requires
            old(self).wf(),
            stats.wf(),
        ensures
            final(self).wf(),
            final(self).spec_capacity() == old(self).spec_capacity(),
            final(self)@ == ring_push(old(self)@, old(self).spec_capacity(), stats),
    {
        if self.entries.len() == self.capacity {
            let _ = self.entries.pop_back();
        }
        self.entries.push_front(stats);
        proof {
            assert(self@ == ring_push(old(self)@, old(self).spec_capacity(), stats));
        }
    }
}

/// The total sample count of a sequence is the first entry's count plus the
/// rest, and dropping the last entry removes exactly its count.
pub proof fn lemma_total_count_parts(s: Seq<StatsForPeriod>)
    requires
        s.len() > 0,
    ensures
        total_count(s) == s[0].count + total_count(s.drop_first()),
        total_count(s) == total_count(s.drop_last()) + s.last().count,
    decreases s.len(),
{
    if s.len() == 1 {
        assert(s.drop_last() =~= Seq::<StatsForPeriod>::empty());
        assert(s.drop_first() =~= Seq::<StatsForPeriod>::empty());
    } else {
        lemma_total_count_parts(s.drop_first());
        assert(s.drop_first().drop_last() =~= s.drop_last().drop_first());
        assert(s.drop_first().last() == s.last());
        assert(s.drop_last()[0] == s[0]);
        lemma_total_count_parts(s.drop_last());
    }
}

/// Every entry's count is non-negative, so the total never is either, and a
/// prefix never counts more than the whole.
pub proof fn lemma_total_count_take(s: Seq<StatsForPeriod>, n: int)
    requires
        0 <= n <= s.len(),
    ensures
        total_count(s) >= 0,
        total_count(s.take(n)) <= total_count(s),
        total_count(s.take(n)) >= 0,
    decreases s.len(),
{
    if s.len() == 0 {
        assert(s.take(n) =~= s);
    } else {
        lemma_total_count_take(s.drop_first(), if n > 0 {
            n - 1
        } else {
            0
        });
        if n > 0 {
            assert(s.take(n).drop_first() =~= s.drop_first().take(n - 1));
            assert(total_count(s.take(n)) == s[0].count + total_count(s.drop_first().take(n - 1)));
        } else {
            assert(s.take(n) =~= Seq::<StatsForPeriod>::empty());
        }
    }
}

/// A ring insertion adds at most the new entry's count to the total (the
/// eviction, when one happens, can only remove count).
pub proof fn lemma_total_count_ring_push(s: Seq<StatsForPeriod>, cap: nat, x: StatsForPeriod)
    requires
        cap > 0,
    ensures
        total_count(ring_push(s, cap, x)) <= total_count(s) + x.count,
        total_count(ring_push(s, cap, x)) >= 0,
{
    let pushed = ring_push(s, cap, x);
    assert(pushed[0] == x);
    if s.len() >= cap {
        assert(pushed.drop_first() =~= s.drop_last());
        if s.len() > 0 {
            lemma_total_count_parts(s);
        }
        lemma_total_count_take(s.drop_last(), s.drop_last().len() as int);
    } else {
        assert(pushed.drop_first() =~= s);
    }
    lemma_total_count_take(pushed, pushed.len() as int);
}

/// Circular buffer capacity invariant and exact eviction order: pushing the
/// entries of `xs` (in order) onto a buffer holding `s` leaves the most
/// recently pushed entries first — the reversal of `xs` followed by what
/// remains of `s` — truncated to the capacity, so the buffer never exceeds
/// its bound and the oldest entries are exactly the ones evicted.
pub proof fn lemma_ring_push_all(s: Seq<StatsForPeriod>, cap: nat, xs: Seq<StatsForPeriod>)
    requires
        cap > 0,
        s.len() <= cap,
    ensures
        ring_push_all(s, cap, xs) =~= (xs.reverse() + s).take(
            if xs.len() + s.len() < cap {
                xs.len() + s.len() as int
            } else {
                cap as int
            },
        ),
        ring_push_all(s, cap, xs).len() <= cap,
    decreases xs.len(),
{
    if xs.len() > 0 {
        lemma_ring_push_all(s, cap, xs.drop_last());
        let prev = ring_push_all(s, cap, xs.drop_last());
        let full = xs.reverse() + s;
        let result = ring_push(prev, cap, xs.last());
        assert((xs.drop_last().reverse() + s) =~= full.drop_first());
        assert(full[0] == xs.last());
        let goal = if xs.len() + s.len() < cap {
            xs.len() + s.len() as int
        } else {
            cap as int
        };
        assert forall|i: int| 0 <= i < goal implies result[i] == full[i] by {
            if i > 0 {
                assert(prev[i - 1] == full.drop_first().take(prev.len() as int)[i - 1]);
            }
        }
        assert(result.len() == goal);
    }
}

} // verus!

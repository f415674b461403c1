//! Per-period accumulators: average, maximum, minimum and count of values
//! for one measured quantity over one window of time.

use vstd::prelude::*;

verus! {

/// Average, maximum, minimum, and count of values for a period of time.
///
/// The average is kept exactly: `sum` holds the exact total of every value
/// merged in, so the average of the period is `sum / count`.  Merging two
/// accumulators adds the counts and the sums, which is precisely the
/// count-weighted combination of the two averages
/// (`avg = avg_a * (1 - w) + avg_b * w` with `w = count_b / (count_a + count_b)`),
/// computed without rounding.
#[derive(Clone, Copy, Debug, PartialEq, Eq, Structural)]
pub struct StatsForPeriod {
    /// The time the period started, in whole seconds.
    pub started_at: u64,
    /// The exact total of all values merged into this accumulator.
    pub sum: u128,
    /// Maximum value.
    pub maximum: u64,
    /// Minimum value.
    pub minimum: u64,
    /// The total number of values.
    pub count: u64,
}

impl StatsForPeriod {
    /// Well-formedness: an empty accumulator carries only sentinel zeroes, and
    /// the sum can never exceed `count` values of the largest representable size.
    pub open spec fn wf(self) -> bool {
        &&& self.count == 0 ==> self.sum == 0 && self.minimum == 0 && self.maximum == 0
        &&& self.sum <= self.count as int * u64::MAX as int
    }

    /// The empty accumulator: no samples seen yet.
    pub open spec fn spec_zero() -> StatsForPeriod {
        StatsForPeriod { started_at: 0, sum: 0, maximum: 0, minimum: 0, count: 0 }
    }

    /// An accumulator holding exactly one value.
    pub open spec fn spec_single(value: u64) -> StatsForPeriod {
        StatsForPeriod {
            started_at: 0,
            sum: value as u128,
            maximum: value,
            minimum: value,
            count: 1,
        }
    }

    /// The result of merging `other` into `self`.
    ///
    /// The minimum is replaced when `other` has seen a smaller value, or
    /// unconditionally when `self` is still empty (so the initial sentinel
    /// zero can never win the comparison).  The maximum always takes the
    /// larger value: the starting sentinel is zero, lower than any
    /// measurement.  Counts and sums add; the start time is kept.
    pub open spec fn merged(self, other: StatsForPeriod) -> StatsForPeriod {
        StatsForPeriod {
            started_at: self.started_at,
            minimum: if (other.count > 0 && other.minimum < self.minimum) || self.count == 0 {
                other.minimum
            } else {
                self.minimum
            },
            maximum: if other.maximum > self.maximum {
                other.maximum
            } else {
                self.maximum
            },
            count: (self.count + other.count) as u64,
            sum: (self.sum + other.sum) as u128,
        }
    }

    /// The average of the period, rounded down to a whole value; zero when no
    /// samples have been seen.
    pub open spec fn spec_average(self) -> int {
        if self.count == 0 {
            0
        } else {
            self.sum as int / self.count as int
        }
    }

    /// Initialises the stats based on a single starting value.
    ///
    /// The value becomes the average, maximum and minimum, and the count is 1.
    pub fn initialize(value: u64) -> (r: StatsForPeriod)
        ensures
            r == StatsForPeriod::spec_single(value),
            r.wf(),
    {
        StatsForPeriod {
            started_at: 0,
            sum: value as u128,
            maximum: value,
            minimum: value,
            count: 1,
        }
    }

    /// Updates the stats with new data, merging `stats` into `self`.
    ///
    /// The maximum and minimum are updated if the new data is higher or lower
    /// than the existing values, the counts are combined, and the average is
    /// the count-weighted average of the two sides, kept exact through the
    /// running sums.  The start time is not updated.
    pub fn update(&mut self, stats: &StatsForPeriod)
        requires
            old(self).wf(),
            stats.wf(),
            old(self).count + stats.count <= u64::MAX,
        ensures
            *final(self) == old(self).merged(*stats),
            final(self).wf(),
    {
        proof {
            lemma_merged_wf(*self, *stats);
        }
        if (stats.minimum < self.minimum && stats.count > 0) || self.count == 0 {
            self.minimum = stats.minimum;
        }
        if stats.maximum > self.maximum {
            self.maximum = stats.maximum;
        }
        self.count = self.count + stats.count;
        self.sum = self.sum + stats.sum;
    }

    /// The average of the period, rounded down to a whole value.
    pub fn average(&self) -> (r: u64)
        requires
            self.wf(),
        ensures
            r as int == self.spec_average(),
    {
        if self.count == 0 {
            0
        } else {
            proof {
                lemma_average_fits(*self);
            }
            (self.sum / (self.count as u128)) as u64
        }
    }
}

impl Default for StatsForPeriod {
    /// The empty accumulator.
    fn default() -> (r: Self)
        ensures
            r == StatsForPeriod::spec_zero(),
            r.wf(),
    {
        StatsForPeriod { started_at: 0, sum: 0, maximum: 0, minimum: 0, count: 0 }
    }
}

/// Merging two well-formed accumulators whose combined count is representable
/// stays well formed and does not overflow the running sum.
pub proof fn lemma_merged_wf(a: StatsForPeriod, b: StatsForPeriod)
    requires
        a.wf(),
        b.wf(),
        a.count + b.count <= u64::MAX,
    ensures
        a.sum + b.sum <= (a.count + b.count) * u64::MAX as int,
        a.sum + b.sum <= u128::MAX,
        a.merged(b).wf(),
{
    assert((a.count + b.count) * u64::MAX as int <= u64::MAX as int * u64::MAX as int)
        by (nonlinear_arith)
        requires
            a.count + b.count <= u64::MAX,
    ;
    assert(a.sum + b.sum <= (a.count + b.count) * u64::MAX as int) by (nonlinear_arith)
        requires
            a.sum <= a.count as int * u64::MAX as int,
            b.sum <= b.count as int * u64::MAX as int,
    ;
}

/// The exact average of a well-formed accumulator always fits in a value.
pub proof fn lemma_average_fits(a: StatsForPeriod)
    requires
        a.wf(),
        a.count > 0,
    ensures
        0 <= a.sum as int / a.count as int <= u64::MAX,
{
    assert(a.sum as int / a.count as int <= u64::MAX) by (nonlinear_arith)
        requires
            a.sum <= a.count as int * u64::MAX as int,
            a.count > 0,
    ;
    assert(a.sum as int / a.count as int >= 0) by (nonlinear_arith)
        requires
            a.sum >= 0,
            a.count > 0,
    ;
}

/// Accumulator merge identity: merging a freshly initialised single-value
/// accumulator for `v` into `a` adds one to the count, takes the larger
/// maximum, takes the smaller minimum (or `v` itself when `a` was empty), and
/// adds `v` to the exact running sum — which is the count-weighted average
/// formula applied to a single new value.
pub proof fn lemma_update_single(a: StatsForPeriod, v: u64)
    requires
        a.wf(),
        a.count < u64::MAX,
    ensures
        ({
            let m = a.merged(StatsForPeriod::spec_single(v));
            &&& m.count == a.count + 1
            &&& m.maximum == if v > a.maximum { v } else { a.maximum }
            &&& a.count > 0 ==> m.minimum == if v < a.minimum { v } else { a.minimum }
            &&& a.count == 0 ==> m.minimum == v
            &&& m.sum == a.sum + v
            &&& m.spec_average() == (a.sum + v) / (a.count + 1)
        }),
{
}

/// Merging is commutative in every aggregate field (only the start time,
/// which merging never changes, follows the left-hand side).
pub proof fn lemma_merge_commutative(a: StatsForPeriod, b: StatsForPeriod)
    requires
        a.wf(),
        b.wf(),
        a.count + b.count <= u64::MAX,
    ensures
        a.merged(b).count == b.merged(a).count,
        a.merged(b).sum == b.merged(a).sum,
        a.merged(b).maximum == b.merged(a).maximum,
        a.merged(b).minimum == b.merged(a).minimum,
{
}

/// Merge associativity under the weighted-average formula: merging three
/// accumulators in sequence produces the same aggregate regardless of the
/// pairing order.
pub proof fn lemma_merge_associative(a: StatsForPeriod, b: StatsForPeriod, c: StatsForPeriod)
    requires
        a.wf(),
        b.wf(),
        c.wf(),
        a.count + b.count + c.count <= u64::MAX,
    ensures
        a.merged(b).merged(c) == a.merged(b.merged(c)),
{
}

} // verus!

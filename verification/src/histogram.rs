//! Histograms: observations counted into cumulative buckets.
//!
//! A bucket is named by its upper bound and counts every observation that
//! does not exceed that bound. Observations are integers in a unit of the
//! caller's choosing.

use vstd::prelude::*;
use crate::error::MetricsError;

verus! {

/// A histogram as the contracts see it.
pub struct HistogramModel {
    /// The upper bounds of the buckets, in increasing order.
    pub bounds: Seq<int>,
    /// For each bucket, how many observations did not exceed its bound.
    pub counts: Seq<nat>,
    /// The sum of all observations.
    pub sum: int,
    /// The number of observations.
    pub count: nat,
}

/// Each bound is greater than the one before it.
pub open spec fn strictly_increasing(bounds: Seq<int>) -> bool {
    forall|i: int, j: int| 0 <= i < j < bounds.len() ==> bounds[i] < bounds[j]
}

/// The bounds of a sequence of machine integers as mathematical integers.
pub open spec fn bounds_of(bounds: Seq<i64>) -> Seq<int> {
    Seq::new(bounds.len(), |i: int| bounds[i] as int)
}

/// The histogram with the given buckets that has seen no observation.
pub open spec fn empty_histogram(bounds: Seq<int>) -> HistogramModel {
    HistogramModel { bounds, counts: Seq::new(bounds.len(), |i: int| 0nat), sum: 0, count: 0 }
}

/// The histogram after one more observation: every bucket whose bound is at
/// least `value` counts one more, and so does the total; `value` is added to
/// the sum.
pub open spec fn observed(h: HistogramModel, value: int) -> HistogramModel {
    HistogramModel {
        bounds: h.bounds,
        counts: Seq::new(
            h.counts.len(),
            |i: int|
                if h.bounds[i] >= value {
                    h.counts[i] + 1
                } else {
                    h.counts[i]
                },
        ),
        sum: h.sum + value,
        count: h.count + 1,
    }
}

/// The histogram after a sequence of observations, made first to last.
pub open spec fn observed_all(h: HistogramModel, values: Seq<int>) -> HistogramModel
    decreases values.len(),
{
    if values.len() == 0 {
        h
    } else {
        observed(observed_all(h, values.drop_last()), values.last())
    }
}

/// What holds of every histogram that observations have built: one count per
/// bucket, increasing bounds, and no bucket that counts more than the total
/// or less than a bucket with a smaller bound.
pub open spec fn histogram_consistent(h: HistogramModel) -> bool {
    &&& h.counts.len() == h.bounds.len()
    &&& strictly_increasing(h.bounds)
    &&& forall|i: int| 0 <= i < h.counts.len() ==> #[trigger] h.counts[i] <= h.count
    &&& forall|i: int, j: int|
        0 <= i < j < h.counts.len() ==> #[trigger] h.counts[i] <= #[trigger] h.counts[j]
}

/// An observation keeps a histogram consistent.
pub proof fn lemma_observed_consistent(h: HistogramModel, value: int)
    requires
        histogram_consistent(h),
    ensures
        histogram_consistent(observed(h, value)),
{
}

/// How many of the values do not exceed `bound`.
pub open spec fn count_up_to(values: Seq<int>, bound: int) -> nat
    decreases values.len(),
{
    if values.len() == 0 {
        0
    } else {
        count_up_to(values.drop_last(), bound) + if values.last() <= bound {
            1nat
        } else {
            0nat
        }
    }
}

/// The sum of the values.
pub open spec fn total_of(values: Seq<int>) -> int
    decreases values.len(),
{
    if values.len() == 0 {
        0
    } else {
        total_of(values.drop_last()) + values.last()
    }
}

/// A histogram that starts empty and observes a sequence of values has
/// counted all of them, holds their sum, and has counted in each bucket
/// those that do not exceed its bound.
pub proof fn lemma_observed_all(bounds: Seq<int>, values: Seq<int>)
    ensures
        observed_all(empty_histogram(bounds), values).bounds == bounds,
        observed_all(empty_histogram(bounds), values).count == values.len(),
        observed_all(empty_histogram(bounds), values).sum == total_of(values),
        observed_all(empty_histogram(bounds), values).counts.len() == bounds.len(),
        forall|i: int|
            0 <= i < bounds.len() ==> #[trigger] observed_all(
                empty_histogram(bounds),
                values,
            ).counts[i] == count_up_to(values, bounds[i]),
    decreases values.len(),
{
    if values.len() > 0 {
        lemma_observed_all(bounds, values.drop_last());
    }
}

/// Observations keep a histogram consistent.
pub proof fn lemma_observed_all_consistent(h: HistogramModel, values: Seq<int>)
    requires
        histogram_consistent(h),
    ensures
        histogram_consistent(observed_all(h, values)),
    decreases values.len(),
{
    if values.len() > 0 {
        lemma_observed_all_consistent(h, values.drop_last());
        lemma_observed_consistent(observed_all(h, values.drop_last()), values.last());
    }
}

/// Checks that each bound is greater than the one before it.
pub fn check_buckets(bounds: &Vec<i64>) -> (ok: bool)
    ensures
        ok == strictly_increasing(bounds_of(bounds@)),
{
    let ghost b = bounds_of(bounds@);
    let mut i: usize = 1;
    while i < bounds.len()
        invariant
            1 <= i,
            b == bounds_of(bounds@),
            forall|k: int, j: int| 0 <= k < j < i && j < b.len() ==> b[k] < b[j],
        decreases bounds.len() - i,
    {
        if bounds[i - 1] >= bounds[i] {
            assert(!(b[i - 1] < b[i as int]));
            return false;
        }
        proof {
            assert forall|k: int, j: int| 0 <= k < j < i + 1 && j < b.len() implies b[k] < b[j] by {
                if j == i && k < i - 1 {
                    assert(b[k] < b[i - 1]);
                }
            }
        }
        i = i + 1;
    }
    true
}

/// A histogram with fixed buckets.
pub struct Histogram {
    bounds: Vec<i64>,
    counts: Vec<u64>,
    sum: i128,
    count: u64,
}

impl View for Histogram {
    type V = HistogramModel;

    closed spec fn view(&self) -> HistogramModel {
        HistogramModel {
            bounds: bounds_of(self.bounds@),
            counts: Seq::new(self.counts@.len(), |i: int| self.counts@[i] as nat),
            sum: self.sum as int,
            count: self.count as nat,
        }
    }
}

impl Histogram {
    /// The invariant of the type: the histogram is consistent, and its numbers
    /// are within what the machine's integers hold.
    #[verifier::type_invariant]
    pub closed spec fn wf(&self) -> bool {
        &&& histogram_consistent(self@)
        &&& self.bounds@.len() == self.counts@.len()
        &&& -(self.count as int) * 0x8000_0000_0000_0000 <= self.sum
        &&& self.sum <= (self.count as int) * 0x7fff_ffff_ffff_ffff
    }

    /// What the invariant of the type says of the histogram as the contracts
    /// see it.
    pub proof fn lemma_wf(&self)
        requires
            self.wf(),
        ensures
            histogram_consistent(self@),
            self@.count <= u64::MAX,
            forall|i: int|
                0 <= i < self@.bounds.len() ==> i64::MIN <= #[trigger] self@.bounds[i] <= i64::MAX,
            forall|i: int| 0 <= i < self@.counts.len() ==> #[trigger] self@.counts[i] <= u64::MAX,
            i128::MIN <= self@.sum <= i128::MAX,
    {
    }

    /// A histogram with the given buckets and no observation. Bounds that
    /// are not strictly increasing are refused with `InvalidBuckets`.
    pub fn new(bounds: Vec<i64>) -> (r: Result<Histogram, MetricsError>)
        ensures
            r is Ok == strictly_increasing(bounds_of(bounds@)),
            r matches Ok(h) ==> h@ == empty_histogram(bounds_of(bounds@)),
            r matches Err(e) ==> e == MetricsError::InvalidBuckets,
    {
        if !check_buckets(&bounds) {
            return Err(MetricsError::InvalidBuckets);
        }
        let mut counts: Vec<u64> = Vec::new();
        let mut i: usize = 0;
        while i < bounds.len()
            invariant
                i <= bounds.len(),
                counts@.len() == i,
                forall|j: int| 0 <= j < i ==> counts@[j] == 0,
            decreases bounds.len() - i,
        {
            counts.push(0);
            i = i + 1;
        }
        assert(Seq::new(counts@.len(), |i: int| counts@[i] as nat) =~= empty_histogram(
            bounds_of(bounds@),
        ).counts);
        Ok(Histogram { bounds, counts, sum: 0, count: 0 })
    }

    /// The number of buckets.
    pub fn bucket_len(&self) -> (n: usize)
        ensures
            n == self@.bounds.len(),
            n == self@.counts.len(),
    {
        proof {
            use_type_invariant(self);
        }
        self.bounds.len()
    }

    /// The upper bound of the bucket at `index`.
    pub fn bound_at(&self, index: usize) -> (r: i64)
        requires
            index < self@.bounds.len(),
        ensures
            r == self@.bounds[index as int],
    {
        self.bounds[index]
    }

    /// How many observations did not exceed the bound of the bucket at
    /// `index`.
    pub fn count_at(&self, index: usize) -> (r: u64)
        requires
            index < self@.counts.len(),
        ensures
            r == self@.counts[index as int],
    {
        self.counts[index]
    }

    /// The sum of all observations.
    pub fn sum(&self) -> (r: i128)
        ensures
            r == self@.sum,
    {
        self.sum
    }

    /// The number of observations.
    pub fn count(&self) -> (r: u64)
        ensures
            r == self@.count,
    {
        self.count
    }

    /// Whether the histogram has exactly these buckets.
    pub fn has_buckets(&self, bounds: &Vec<i64>) -> (r: bool)
        ensures
            r == (self@.bounds == bounds_of(bounds@)),
    {
        if self.bounds.len() != bounds.len() {
            assert(self@.bounds.len() != bounds_of(bounds@).len());
            return false;
        }
        let mut i: usize = 0;
        while i < bounds.len()
            invariant
                i <= bounds.len(),
                self.bounds@.len() == bounds@.len(),
                self@.bounds == bounds_of(self.bounds@),
                forall|j: int| 0 <= j < i ==> self.bounds@[j] == bounds@[j],
            decreases bounds.len() - i,
        {
            if self.bounds[i] != bounds[i] {
                assert(self@.bounds[i as int] != bounds_of(bounds@)[i as int]);
                return false;
            }
            i = i + 1;
        }
        assert(self@.bounds =~= bounds_of(bounds@));
        true
    }

    /// Records one observation.
    pub fn observe(&mut self, value: i64)
        requires
            old(self)@.count < u64::MAX,
        ensures
            final(self)@ == observed(old(self)@, value as int),
    {
        proof {
            use_type_invariant(&*self);
            lemma_observed_consistent(self@, value as int);
            assert forall|j: int| 0 <= j < self.counts@.len() implies self.counts@[j]
                <= self.count by {
                assert(self@.counts[j] <= self@.count);
            }
        }
        let n: usize = self.counts.len();
        let mut counts: Vec<u64> = Vec::new();
        let mut i: usize = 0;
        while i < n
            invariant
                i <= n,
                n == self.counts@.len(),
                n == self.bounds@.len(),
                counts@.len() == i,
                self@.count < u64::MAX,
                forall|j: int| 0 <= j < n ==> self.counts@[j] <= self.count,
                forall|j: int|
                    0 <= j < i ==> counts@[j] == (if self.bounds@[j] >= value {
                        self.counts@[j] + 1
                    } else {
                        self.counts@[j] as int
                    }),
            decreases n - i,
        {
            if self.bounds[i] >= value {
                counts.push(self.counts[i] + 1);
            } else {
                counts.push(self.counts[i]);
            }
            i = i + 1;
        }
        assert(Seq::new(counts@.len(), |i: int| counts@[i] as nat) =~= observed(
            old(self)@,
            value as int,
        ).counts);
        self.count = self.count + 1;
        self.sum = self.sum + value as i128;
        self.counts = counts;
    }

    /// Records one observation unless the histogram has counted as many as
    /// the machine's integers hold, and tells whether it did.
    pub fn checked_observe(&mut self, value: i64) -> (done: bool)
        ensures
            done == (old(self)@.count < u64::MAX),
            done ==> final(self)@ == observed(old(self)@, value as int),
            !done ==> final(self)@ == old(self)@,
    {
        if self.count == u64::MAX {
            return false;
        }
        self.observe(value);
        true
    }

    /// A copy of the histogram.
    pub fn duplicate(&self) -> (r: Histogram)
        ensures
            r@ == self@,
    {
        proof {
            use_type_invariant(self);
        }
        let bounds: Vec<i64> = self.bounds.clone();
        let counts: Vec<u64> = self.counts.clone();
        Histogram { bounds, counts, sum: self.sum, count: self.count }
    }
}

} // verus!

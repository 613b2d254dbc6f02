//! The registry itself: the samples of a process and the writes that
//! request handlers make to them.

use vstd::prelude::*;
use vstd::string::*;
use crate::error::MetricsError;
use crate::histogram::{
    bounds_of, check_buckets, histogram_consistent, lemma_observed_consistent, observed, Histogram,
};
use crate::metrics::laws::{
    lemma_key_lt_irreflexive, lemma_key_lt_total, lemma_position_of_member, lemma_sample_position,
    lemma_sample_position_skip, lemma_with_sample_consistent, lemma_with_sample_found,
};
use crate::metrics::model::{
    after_increment, after_observe, after_register, after_set, counter_value, has_sample,
    histogram_on_record, increment_result, key_lt, name_has_other_kind, observe_result,
    registry_consistent, sample_before, sample_consistent, sample_position, sample_value,
    set_result, with_sample, MetricKind, RegistryModel, SampleModel, ValueModel,
};
use crate::text::{place_text, Placement};
use crate::textmap::{lookup, with_entry, Entry, TextMap};

verus! {

/// The value of a sample, which is a counter, a gauge or a histogram.
pub enum MetricValue {
    Counter(u64),
    Gauge(i64),
    Histogram(Histogram),
}

impl View for MetricValue {
    type V = ValueModel;

    open spec fn view(&self) -> ValueModel {
        match self {
            MetricValue::Counter(v) => ValueModel::Counter(*v as nat),
            MetricValue::Gauge(v) => ValueModel::Gauge(*v as int),
            MetricValue::Histogram(h) => ValueModel::Histogram(h@),
        }
    }
}

impl MetricValue {
    /// The kind of metric that the value belongs to.
    pub fn kind(&self) -> (r: MetricKind)
        ensures
            r == self@.kind(),
    {
        match self {
            MetricValue::Counter(_) => MetricKind::Counter,
            MetricValue::Gauge(_) => MetricKind::Gauge,
            MetricValue::Histogram(_) => MetricKind::Histogram,
        }
    }
}

/// One sample: what is measured, under which labels, and its current value.
pub struct MetricSample {
    pub name: String,
    pub labels: TextMap,
    pub value: MetricValue,
}

impl View for MetricSample {
    type V = SampleModel;

    open spec fn view(&self) -> SampleModel {
        SampleModel { name: self.name@, labels: self.labels@, value: self.value@ }
    }
}

impl MetricSample {
    /// Where the sample stands relative to the identity `(name, labels)`.
    pub fn place(&self, name: &str, labels: &TextMap) -> (r: Placement)
        ensures
            r == Placement::Before <==> sample_before(self@, name@, labels@),
            r == Placement::Same <==> self@.name == name@ && self@.labels == labels@,
            r == Placement::After <==> key_lt(name@, labels@, self@.name, self@.labels),
    {
        proof {
            lemma_key_lt_total(self@.name, self@.labels, name@, labels@);
            lemma_key_lt_irreflexive(name@, labels@);
        }
        let by_name: Placement = place_text(self.name.as_str(), name);
        if by_name == Placement::Same {
            self.labels.place(labels)
        } else {
            by_name
        }
    }
}

/// The samples of a sequence as the contracts see them.
spec fn samples_of(samples: Seq<MetricSample>) -> Seq<SampleModel> {
    Seq::new(samples.len(), |i: int| samples[i]@)
}

/// The process's metrics.
pub struct MetricsRegistry {
    samples: Vec<MetricSample>,
    descriptions: TextMap,
}

impl View for MetricsRegistry {
    type V = RegistryModel;

    closed spec fn view(&self) -> RegistryModel {
        RegistryModel { samples: samples_of(self.samples@), descriptions: self.descriptions@ }
    }
}

impl MetricsRegistry {
    /// The invariant of the type: the registry is consistent.
    #[verifier::type_invariant]
    pub closed spec fn wf(&self) -> bool {
        registry_consistent(self@)
    }

    /// What the invariant of the type says of the registry as the contracts
    /// see it.
    pub proof fn lemma_wf(&self)
        requires
            self.wf(),
        ensures
            registry_consistent(self@),
    {
    }

    /// A registry without samples or descriptions.
    pub fn new() -> (r: MetricsRegistry)
        ensures
            r@.samples == Seq::<SampleModel>::empty(),
            r@.descriptions == Seq::<Entry>::empty(),
    {
        let samples: Vec<MetricSample> = Vec::new();
        let descriptions = TextMap::new();
        MetricsRegistry { samples, descriptions }
    }

    /// The number of samples.
    pub fn len(&self) -> (n: usize)
        ensures
            n == self@.samples.len(),
    {
        self.samples.len()
    }

    /// The sample at `index`, counting in the registry's order.
    pub fn sample_at(&self, index: usize) -> (r: &MetricSample)
        requires
            index < self@.samples.len(),
        ensures
            r@ == self@.samples[index as int],
    {
        &self.samples[index]
    }

    /// Where the sample `(name, labels)` stands or would stand, and whether it
    /// is there.
    pub fn find(&self, name: &str, labels: &TextMap) -> (r: (usize, bool))
        ensures
            r.0 == sample_position(self@.samples, name@, labels@),
            r.1 == has_sample(self@.samples, name@, labels@),
    {
        let ghost s = self@.samples;
        let mut i: usize = 0;
        while i < self.samples.len()
            invariant
                s == self@.samples,
                i <= s.len(),
                s.len() == self.samples@.len(),
                forall|j: int| 0 <= j < i ==> sample_before(#[trigger] s[j], name@, labels@),
            decreases s.len() - i,
        {
            let here: Placement = self.samples[i].place(name, labels);
            if here != Placement::Before {
                proof {
                    lemma_sample_position_skip(s, name@, labels@, i as int);
                }
                return (i, here == Placement::Same);
            }
            i = i + 1;
        }
        proof {
            lemma_sample_position_skip(s, name@, labels@, i as int);
        }
        (i, false)
    }

    /// Whether `name` is in use for a metric of another kind than `kind`.
    pub fn other_kind_in_use(&self, name: &str, kind: MetricKind) -> (r: bool)
        ensures
            r == name_has_other_kind(self@.samples, name@, kind),
    {
        let ghost s = self@.samples;
        let mut i: usize = 0;
        while i < self.samples.len()
            invariant
                s == self@.samples,
                i <= s.len(),
                s.len() == self.samples@.len(),
                forall|j: int|
                    0 <= j < i ==> !((#[trigger] s[j]).name == name@ && s[j].value.kind() != kind),
            decreases s.len() - i,
        {
            assert(s[i as int] == self.samples@[i as int]@);
            if place_text(self.samples[i].name.as_str(), name) == Placement::Same
                && self.samples[i].value.kind() != kind {
                return true;
            }
            i = i + 1;
        }
        false
    }

    /// The value of the counter `(name, labels)`, if there is such a counter.
    pub fn counter(&self, name: &str, labels: &TextMap) -> (r: Option<u64>)
        ensures
            r == match sample_value(self@.samples, name@, labels@) {
                Some(ValueModel::Counter(v)) => Some(v as u64),
                _ => None,
            },
            r matches Some(v) ==> v == counter_value(self@.samples, name@, labels@),
    {
        let (p, found) = self.find(name, labels);
        if !found {
            return None;
        }
        match &self.samples[p].value {
            MetricValue::Counter(v) => Some(*v),
            _ => None,
        }
    }

    /// The value of the gauge `(name, labels)`, if there is such a gauge.
    pub fn gauge(&self, name: &str, labels: &TextMap) -> (r: Option<i64>)
        ensures
            r == match sample_value(self@.samples, name@, labels@) {
                Some(ValueModel::Gauge(v)) => Some(v as i64),
                _ => None,
            },
    {
        let (p, found) = self.find(name, labels);
        if !found {
            return None;
        }
        match &self.samples[p].value {
            MetricValue::Gauge(v) => Some(*v),
            _ => None,
        }
    }

    /// The histogram `(name, labels)`, if there is such a histogram.
    pub fn histogram(&self, name: &str, labels: &TextMap) -> (r: Option<&Histogram>)
        ensures
            match sample_value(self@.samples, name@, labels@) {
                Some(ValueModel::Histogram(h)) => r matches Some(x) && x@ == h,
                _ => r is None,
            },
    {
        let (p, found) = self.find(name, labels);
        if !found {
            return None;
        }
        match &self.samples[p].value {
            MetricValue::Histogram(h) => Some(h),
            _ => None,
        }
    }

    /// Puts `sample` in at `index`, its place in the order.
    fn insert_at(&mut self, index: usize, sample: MetricSample)
        requires
            index == sample_position(old(self)@.samples, sample@.name, sample@.labels),
            !has_sample(old(self)@.samples, sample@.name, sample@.labels),
            sample_consistent(sample@),
            !name_has_other_kind(old(self)@.samples, sample@.name, sample@.value.kind()),
        ensures
            final(self)@.samples == with_sample(old(self)@.samples, sample@),
            final(self)@.descriptions == old(self)@.descriptions,
    {
        proof {
            use_type_invariant(&*self);
            lemma_sample_position(self@.samples, sample@.name, sample@.labels);
            lemma_with_sample_consistent(self@, sample@);
        }
        let mut samples: Vec<MetricSample> = Vec::new();
        std::mem::swap(&mut samples, &mut self.samples);
        samples.insert(index, sample);
        assert(samples_of(samples@) =~= with_sample(old(self)@.samples, sample@));
        self.samples = samples;
    }

    /// Gives the sample at `index` the value `value`, which is of its kind.
    fn set_value_at(&mut self, index: usize, value: MetricValue)
        requires
            index < old(self)@.samples.len(),
            value@.kind() == old(self)@.samples[index as int].value.kind(),
            value@ matches ValueModel::Histogram(h) ==> histogram_consistent(h),
        ensures
            final(self)@.samples == with_sample(
                old(self)@.samples,
                SampleModel {
                    name: old(self)@.samples[index as int].name,
                    labels: old(self)@.samples[index as int].labels,
                    value: value@,
                },
            ),
            final(self)@.descriptions == old(self)@.descriptions,
    {
        let ghost s = self@.samples;
        let ghost x = SampleModel {
            name: s[index as int].name,
            labels: s[index as int].labels,
            value: value@,
        };
        proof {
            use_type_invariant(&*self);
            lemma_position_of_member(s, index as int);
            lemma_with_sample_consistent(self@, x);
        }
        let mut samples: Vec<MetricSample> = Vec::new();
        std::mem::swap(&mut samples, &mut self.samples);
        samples[index].value = value;
        assert(samples_of(samples@) =~= with_sample(s, x));
        self.samples = samples;
    }

    /// Adds `delta` to the counter `(name, labels)`, which starts at zero when
    /// it is first used. A negative `delta` is refused with `InvalidDelta`, a
    /// name that is in use for another kind of metric with `KindMismatch`;
    /// a refused request changes nothing.
    pub fn increment_counter(&mut self, name: &str, labels: &TextMap, delta: i64) -> (r: Result<
        (),
        MetricsError,
    >)
        requires
            delta >= 0 ==> counter_value(old(self)@.samples, name@, labels@) + delta <= u64::MAX,
        ensures
            r == increment_result(old(self)@, name@, delta as int),
            final(self)@ == after_increment(old(self)@, name@, labels@, delta as int),
            delta < 0 ==> r == Err::<(), MetricsError>(MetricsError::InvalidDelta) && final(self)@ == old(
                self,
            )@,
            r is Ok ==> counter_value(final(self)@.samples, name@, labels@) == counter_value(
                old(self)@.samples,
                name@,
                labels@,
            ) + delta,
    {
        if delta < 0 {
            return Err(MetricsError::InvalidDelta);
        }
        if self.other_kind_in_use(name, MetricKind::Counter) {
            return Err(MetricsError::KindMismatch);
        }
        proof {
            use_type_invariant(&*self);
            lemma_with_sample_found(
                self@.samples,
                SampleModel {
                    name: name@,
                    labels: labels@,
                    value: ValueModel::Counter(
                        (counter_value(self@.samples, name@, labels@) + delta) as nat,
                    ),
                },
            );
        }
        let (p, found) = self.find(name, labels);
        if found {
            let current: u64 = match &self.samples[p].value {
                MetricValue::Counter(v) => *v,
                _ => 0,
            };
            self.set_value_at(p, MetricValue::Counter(current + delta as u64));
        } else {
            proof {
                use_type_invariant(labels);
            }
            self.insert_at(
                p,
                MetricSample {
                    name: name.to_owned(),
                    labels: labels.duplicate(),
                    value: MetricValue::Counter(delta as u64),
                },
            );
        }
        Ok(())
    }

    /// Adds `delta` to the counter `(name, labels)` as `increment_counter`
    /// does, unless the counter would go beyond what the machine's integers
    /// hold: then nothing changes, and the answer is `None`.
    pub fn checked_increment_counter(&mut self, name: &str, labels: &TextMap, delta: i64) -> (r:
        Option<Result<(), MetricsError>>)
        ensures
            r is None <==> delta >= 0 && counter_value(old(self)@.samples, name@, labels@) + delta
                > u64::MAX,
            r is None ==> final(self)@ == old(self)@,
            r matches Some(done) ==> done == increment_result(old(self)@, name@, delta as int)
                && final(self)@ == after_increment(old(self)@, name@, labels@, delta as int),
    {
        if delta >= 0 {
            let current: u64 = match self.counter(name, labels) {
                Some(v) => v,
                None => 0,
            };
            if current > u64::MAX - (delta as u64) {
                return None;
            }
        }
        Some(self.increment_counter(name, labels, delta))
    }

    /// Sets the gauge `(name, labels)` to `value`, whatever it was before. A
    /// name that is in use for another kind of metric is refused with
    /// `KindMismatch`, and nothing changes.
    pub fn set_gauge(&mut self, name: &str, labels: &TextMap, value: i64) -> (r: Result<
        (),
        MetricsError,
    >)
        ensures
            r == set_result(old(self)@, name@),
            final(self)@ == after_set(old(self)@, name@, labels@, value as int),
            r is Ok ==> sample_value(final(self)@.samples, name@, labels@) == Some(
                ValueModel::Gauge(value as int),
            ),
    {
        if self.other_kind_in_use(name, MetricKind::Gauge) {
            return Err(MetricsError::KindMismatch);
        }
        proof {
            use_type_invariant(&*self);
            lemma_with_sample_found(
                self@.samples,
                SampleModel { name: name@, labels: labels@, value: ValueModel::Gauge(value as int) },
            );
        }
        let (p, found) = self.find(name, labels);
        if found {
            self.set_value_at(p, MetricValue::Gauge(value));
        } else {
            proof {
                use_type_invariant(labels);
            }
            self.insert_at(
                p,
                MetricSample {
                    name: name.to_owned(),
                    labels: labels.duplicate(),
                    value: MetricValue::Gauge(value),
                },
            );
        }
        Ok(())
    }

    /// Records `value` in the histogram at `index`.
    fn observe_at(&mut self, index: usize, value: i64)
        requires
            index < old(self)@.samples.len(),
            old(self)@.samples[index as int].value matches ValueModel::Histogram(h) && h.count
                < u64::MAX,
        ensures
            final(self)@.samples == with_sample(
                old(self)@.samples,
                SampleModel {
                    name: old(self)@.samples[index as int].name,
                    labels: old(self)@.samples[index as int].labels,
                    value: ValueModel::Histogram(
                        observed(old(self)@.samples[index as int].value->Histogram_0, value as int),
                    ),
                },
            ),
            final(self)@.descriptions == old(self)@.descriptions,
    {
        let ghost s = self@.samples;
        let ghost x = SampleModel {
            name: s[index as int].name,
            labels: s[index as int].labels,
            value: ValueModel::Histogram(observed(s[index as int].value->Histogram_0, value as int)),
        };
        proof {
            use_type_invariant(&*self);
            lemma_position_of_member(s, index as int);
            lemma_observed_consistent(s[index as int].value->Histogram_0, value as int);
            lemma_with_sample_consistent(self@, x);
        }
        let mut samples: Vec<MetricSample> = Vec::new();
        std::mem::swap(&mut samples, &mut self.samples);
        match &mut samples[index].value {
            MetricValue::Histogram(h) => {
                h.observe(value);
            },
            _ => {},
        }
        assert(samples_of(samples@) =~= with_sample(s, x));
        self.samples = samples;
    }

    /// Records `value` in the histogram `(name, labels)`, which is registered
    /// with `buckets` when it is first used. Bounds that are not strictly
    /// increasing, or that are not those of the registered histogram, are
    /// refused with `InvalidBuckets`, a name that is in use for another kind
    /// of metric with `KindMismatch`; a refused request changes nothing.
    pub fn observe_histogram(
        &mut self,
        name: &str,
        labels: &TextMap,
        buckets: &Vec<i64>,
        value: i64,
    ) -> (r: Result<(), MetricsError>)
        requires
            histogram_on_record(old(self)@.samples, name@, labels@, bounds_of(buckets@)).count
                < u64::MAX,
        ensures
            r == observe_result(old(self)@, name@, labels@, bounds_of(buckets@)),
            final(self)@ == after_observe(
                old(self)@,
                name@,
                labels@,
                bounds_of(buckets@),
                value as int,
            ),
            r is Ok ==> sample_value(final(self)@.samples, name@, labels@) == Some(
                ValueModel::Histogram(
                    observed(
                        histogram_on_record(old(self)@.samples, name@, labels@, bounds_of(buckets@)),
                        value as int,
                    ),
                ),
            ),
    {
        if !check_buckets(buckets) {
            return Err(MetricsError::InvalidBuckets);
        }
        if self.other_kind_in_use(name, MetricKind::Histogram) {
            return Err(MetricsError::KindMismatch);
        }
        proof {
            use_type_invariant(&*self);
            lemma_with_sample_found(
                self@.samples,
                SampleModel {
                    name: name@,
                    labels: labels@,
                    value: ValueModel::Histogram(
                        observed(
                            histogram_on_record(self@.samples, name@, labels@, bounds_of(buckets@)),
                            value as int,
                        ),
                    ),
                },
            );
        }
        let (p, found) = self.find(name, labels);
        if found {
            let same_buckets: bool = match &self.samples[p].value {
                MetricValue::Histogram(h) => h.has_buckets(buckets),
                _ => false,
            };
            if !same_buckets {
                return Err(MetricsError::InvalidBuckets);
            }
            self.observe_at(p, value);
        } else {
            match Histogram::new(buckets.clone()) {
                Ok(fresh) => {
                    let mut h: Histogram = fresh;
                    h.observe(value);
                    proof {
                        use_type_invariant(&h);
                        h.lemma_wf();
                        use_type_invariant(labels);
                    }
                    self.insert_at(
                        p,
                        MetricSample {
                            name: name.to_owned(),
                            labels: labels.duplicate(),
                            value: MetricValue::Histogram(h),
                        },
                    );
                },
                Err(e) => {
                    return Err(e);
                },
            }
        }
        Ok(())
    }

    /// Registers the histogram `(name, labels)` with `buckets`, without an
    /// observation. A histogram that is registered already stays as it is.
    /// Bounds that are not strictly increasing, or that are not those of the
    /// registered histogram, are refused with `InvalidBuckets`, a name that
    /// is in use for another kind of metric with `KindMismatch`; a refused
    /// request changes nothing.
    pub fn register_histogram(&mut self, name: &str, labels: &TextMap, buckets: &Vec<i64>) -> (r:
        Result<(), MetricsError>)
        ensures
            r == observe_result(old(self)@, name@, labels@, bounds_of(buckets@)),
            final(self)@ == after_register(old(self)@, name@, labels@, bounds_of(buckets@)),
            r is Ok ==> sample_value(final(self)@.samples, name@, labels@) == Some(
                ValueModel::Histogram(
                    histogram_on_record(old(self)@.samples, name@, labels@, bounds_of(buckets@)),
                ),
            ),
    {
        if !check_buckets(buckets) {
            return Err(MetricsError::InvalidBuckets);
        }
        if self.other_kind_in_use(name, MetricKind::Histogram) {
            return Err(MetricsError::KindMismatch);
        }
        proof {
            use_type_invariant(&*self);
            lemma_with_sample_found(
                self@.samples,
                SampleModel {
                    name: name@,
                    labels: labels@,
                    value: ValueModel::Histogram(
                        histogram_on_record(self@.samples, name@, labels@, bounds_of(buckets@)),
                    ),
                },
            );
        }
        let (p, found) = self.find(name, labels);
        if found {
            let same_buckets: bool = match &self.samples[p].value {
                MetricValue::Histogram(h) => h.has_buckets(buckets),
                _ => false,
            };
            if !same_buckets {
                return Err(MetricsError::InvalidBuckets);
            }
            assert(self@.samples =~= after_register(
                self@,
                name@,
                labels@,
                bounds_of(buckets@),
            ).samples);
        } else {
            match Histogram::new(buckets.clone()) {
                Ok(h) => {
                    proof {
                        use_type_invariant(&h);
                        h.lemma_wf();
                        use_type_invariant(labels);
                    }
                    self.insert_at(
                        p,
                        MetricSample {
                            name: name.to_owned(),
                            labels: labels.duplicate(),
                            value: MetricValue::Histogram(h),
                        },
                    );
                },
                Err(e) => {
                    return Err(e);
                },
            }
        }
        Ok(())
    }

    /// Records `value` in the histogram `(name, labels)` as
    /// `observe_histogram` does, unless the histogram has counted as many
    /// observations as the machine's integers hold: then nothing changes, and
    /// the answer is `None`.
    pub fn checked_observe_histogram(
        &mut self,
        name: &str,
        labels: &TextMap,
        buckets: &Vec<i64>,
        value: i64,
    ) -> (r: Option<Result<(), MetricsError>>)
        ensures
            r is None <==> histogram_on_record(
                old(self)@.samples,
                name@,
                labels@,
                bounds_of(buckets@),
            ).count >= u64::MAX,
            r is None ==> final(self)@ == old(self)@,
            r matches Some(done) ==> done == observe_result(
                old(self)@,
                name@,
                labels@,
                bounds_of(buckets@),
            ) && final(self)@ == after_observe(
                old(self)@,
                name@,
                labels@,
                bounds_of(buckets@),
                value as int,
            ),
    {
        let count: u64 = match self.histogram(name, labels) {
            Some(h) => h.count(),
            None => 0,
        };
        if count == u64::MAX {
            return None;
        }
        Some(self.observe_histogram(name, labels, buckets, value))
    }

    /// Describes what the metric `name` measures, in place of any earlier
    /// description of it.
    pub fn describe(&mut self, name: &str, help: &str)
        ensures
            final(self)@.samples == old(self)@.samples,
            final(self)@.descriptions == with_entry(old(self)@.descriptions, name@, help@),
    {
        proof {
            use_type_invariant(&*self);
        }
        let mut descriptions = TextMap::new();
        std::mem::swap(&mut descriptions, &mut self.descriptions);
        descriptions.insert(name, help);
        proof {
            use_type_invariant(&descriptions);
        }
        self.descriptions = descriptions;
    }

    /// The description of the metric `name`, if it has one.
    pub fn description(&self, name: &str) -> (r: Option<&String>)
        ensures
            match lookup(self@.descriptions, name@) {
                Some(text) => r matches Some(x) && x@ == text,
                None => r is None,
            },
    {
        self.descriptions.get(name)
    }
}

} // verus!

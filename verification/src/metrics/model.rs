//! The registry as the contracts see it: what a sample is, how samples are
//! ordered, and what each write makes of the registry.

use vstd::prelude::*;
use crate::error::MetricsError;
use crate::histogram::{
    empty_histogram, histogram_consistent, observed, strictly_increasing, HistogramModel,
};
use crate::text::text_lt;
use crate::textmap::{entries_lt, entries_sorted, Entry};

verus! {

/// What a sample measures.
#[derive(Clone, Copy, Debug, PartialEq, Eq, Structural)]
pub enum MetricKind {
    /// A number that only grows.
    Counter,
    /// A number that is set to whatever it currently is.
    Gauge,
    /// Observations counted into buckets.
    Histogram,
}

/// The value of a sample as the contracts see it.
pub enum ValueModel {
    Counter(nat),
    Gauge(int),
    Histogram(HistogramModel),
}

impl ValueModel {
    /// The kind of metric that the value belongs to.
    pub open spec fn kind(self) -> MetricKind {
        match self {
            ValueModel::Counter(_) => MetricKind::Counter,
            ValueModel::Gauge(_) => MetricKind::Gauge,
            ValueModel::Histogram(_) => MetricKind::Histogram,
        }
    }
}

/// A sample as the contracts see it.
pub struct SampleModel {
    pub name: Seq<char>,
    pub labels: Seq<Entry>,
    pub value: ValueModel,
}

/// The registry as the contracts see it.
pub struct RegistryModel {
    /// The samples, ordered by name and then by label set.
    pub samples: Seq<SampleModel>,
    /// The description of each described name, ordered by name.
    pub descriptions: Seq<Entry>,
}

/// The order on sample identities: by name, then by label set.
pub open spec fn key_lt(
    a_name: Seq<char>,
    a_labels: Seq<Entry>,
    b_name: Seq<char>,
    b_labels: Seq<Entry>,
) -> bool {
    text_lt(a_name, b_name) || (a_name == b_name && entries_lt(a_labels, b_labels))
}

/// The sample precedes the identity `(name, labels)`.
pub open spec fn sample_before(s: SampleModel, name: Seq<char>, labels: Seq<Entry>) -> bool {
    key_lt(s.name, s.labels, name, labels)
}

/// No identity occurs twice, and the samples stand in the order of their
/// identities.
pub open spec fn samples_sorted(s: Seq<SampleModel>) -> bool {
    forall|i: int, j: int|
        #![trigger s[i], s[j]]
        0 <= i < j < s.len() ==> key_lt(s[i].name, s[i].labels, s[j].name, s[j].labels)
}

/// The index of the first sample that does not precede `(name, labels)`:
/// where the sample of that identity stands, or would stand.
pub open spec fn sample_position(s: Seq<SampleModel>, name: Seq<char>, labels: Seq<Entry>) -> int
    decreases s.len(),
{
    if s.len() == 0 || !sample_before(s[0], name, labels) {
        0
    } else {
        1 + sample_position(s.drop_first(), name, labels)
    }
}

/// Whether there is a sample with the identity `(name, labels)`.
pub open spec fn has_sample(s: Seq<SampleModel>, name: Seq<char>, labels: Seq<Entry>) -> bool {
    let p = sample_position(s, name, labels);
    p < s.len() && s[p].name == name && s[p].labels == labels
}

/// The value of the sample with the identity `(name, labels)`.
pub open spec fn sample_value(s: Seq<SampleModel>, name: Seq<char>, labels: Seq<Entry>) -> Option<
    ValueModel,
> {
    if has_sample(s, name, labels) {
        Some(s[sample_position(s, name, labels)].value)
    } else {
        None
    }
}

/// The samples with `x` among them: the sample of its identity replaced, or
/// `x` put in at its place in the order.
pub open spec fn with_sample(s: Seq<SampleModel>, x: SampleModel) -> Seq<SampleModel> {
    if has_sample(s, x.name, x.labels) {
        s.update(sample_position(s, x.name, x.labels), x)
    } else {
        s.insert(sample_position(s, x.name, x.labels), x)
    }
}

/// Whether `name` is in use for a metric of another kind than `kind`.
pub open spec fn name_has_other_kind(s: Seq<SampleModel>, name: Seq<char>, kind: MetricKind) -> bool {
    exists|i: int| 0 <= i < s.len() && (#[trigger] s[i]).name == name && s[i].value.kind() != kind
}

/// All samples of one name have the same kind.
pub open spec fn kinds_agree(s: Seq<SampleModel>) -> bool {
    forall|i: int, j: int|
        #![trigger s[i], s[j]]
        0 <= i < s.len() && 0 <= j < s.len() && s[i].name == s[j].name ==> s[i].value.kind()
            == s[j].value.kind()
}

/// The labels of the sample are in key order, and its histogram, if it is
/// one, is consistent.
pub open spec fn sample_consistent(x: SampleModel) -> bool {
    &&& entries_sorted(x.labels)
    &&& x.value matches ValueModel::Histogram(h) ==> histogram_consistent(h)
}

/// What holds of every registry: its samples are in order, each consistent,
/// those of one name of one kind, and the descriptions are in order.
pub open spec fn registry_consistent(m: RegistryModel) -> bool {
    &&& samples_sorted(m.samples)
    &&& kinds_agree(m.samples)
    &&& forall|i: int| 0 <= i < m.samples.len() ==> sample_consistent(#[trigger] m.samples[i])
    &&& entries_sorted(m.descriptions)
}

/// The value of the counter `(name, labels)`; a counter that was never
/// incremented stands at zero.
pub open spec fn counter_value(s: Seq<SampleModel>, name: Seq<char>, labels: Seq<Entry>) -> nat {
    match sample_value(s, name, labels) {
        Some(ValueModel::Counter(v)) => v,
        _ => 0,
    }
}

/// Whether incrementing a counter by `delta` succeeds, and why not.
pub open spec fn increment_result(m: RegistryModel, name: Seq<char>, delta: int) -> Result<
    (),
    MetricsError,
> {
    if delta < 0 {
        Err(MetricsError::InvalidDelta)
    } else if name_has_other_kind(m.samples, name, MetricKind::Counter) {
        Err(MetricsError::KindMismatch)
    } else {
        Ok(())
    }
}

/// The registry after the counter `(name, labels)` was asked to grow by
/// `delta`: unchanged if the request is refused, else with the counter at
/// its former value plus `delta`.
pub open spec fn after_increment(
    m: RegistryModel,
    name: Seq<char>,
    labels: Seq<Entry>,
    delta: int,
) -> RegistryModel {
    if increment_result(m, name, delta) is Err {
        m
    } else {
        RegistryModel {
            samples: with_sample(
                m.samples,
                SampleModel {
                    name,
                    labels,
                    value: ValueModel::Counter((counter_value(m.samples, name, labels) + delta) as nat),
                },
            ),
            descriptions: m.descriptions,
        }
    }
}

/// Whether setting a gauge succeeds, and why not.
pub open spec fn set_result(m: RegistryModel, name: Seq<char>) -> Result<(), MetricsError> {
    if name_has_other_kind(m.samples, name, MetricKind::Gauge) {
        Err(MetricsError::KindMismatch)
    } else {
        Ok(())
    }
}

/// The registry after the gauge `(name, labels)` was asked to show `value`.
pub open spec fn after_set(
    m: RegistryModel,
    name: Seq<char>,
    labels: Seq<Entry>,
    value: int,
) -> RegistryModel {
    if set_result(m, name) is Err {
        m
    } else {
        RegistryModel {
            samples: with_sample(m.samples, SampleModel { name, labels, value: ValueModel::Gauge(value) }),
            descriptions: m.descriptions,
        }
    }
}

/// The histogram `(name, labels)` as it stands before an observation: the
/// registered one, or a new one with the given buckets.
pub open spec fn histogram_on_record(
    s: Seq<SampleModel>,
    name: Seq<char>,
    labels: Seq<Entry>,
    bounds: Seq<int>,
) -> HistogramModel {
    match sample_value(s, name, labels) {
        Some(ValueModel::Histogram(h)) => h,
        _ => empty_histogram(bounds),
    }
}

/// Whether an observation succeeds, and why not.
pub open spec fn observe_result(
    m: RegistryModel,
    name: Seq<char>,
    labels: Seq<Entry>,
    bounds: Seq<int>,
) -> Result<(), MetricsError> {
    if !strictly_increasing(bounds) {
        Err(MetricsError::InvalidBuckets)
    } else if name_has_other_kind(m.samples, name, MetricKind::Histogram) {
        Err(MetricsError::KindMismatch)
    } else if histogram_on_record(m.samples, name, labels, bounds).bounds != bounds {
        Err(MetricsError::InvalidBuckets)
    } else {
        Ok(())
    }
}

/// The registry after the histogram `(name, labels)` was asked to be
/// registered with the given buckets: unchanged if the request is refused or
/// the histogram is there already, else with the histogram and no
/// observation in it.
pub open spec fn after_register(
    m: RegistryModel,
    name: Seq<char>,
    labels: Seq<Entry>,
    bounds: Seq<int>,
) -> RegistryModel {
    if observe_result(m, name, labels, bounds) is Err {
        m
    } else {
        RegistryModel {
            samples: with_sample(
                m.samples,
                SampleModel {
                    name,
                    labels,
                    value: ValueModel::Histogram(
                        histogram_on_record(m.samples, name, labels, bounds),
                    ),
                },
            ),
            descriptions: m.descriptions,
        }
    }
}

/// The registry after the histogram `(name, labels)` with the given buckets
/// was asked to observe `value`.
pub open spec fn after_observe(
    m: RegistryModel,
    name: Seq<char>,
    labels: Seq<Entry>,
    bounds: Seq<int>,
    value: int,
) -> RegistryModel {
    if observe_result(m, name, labels, bounds) is Err {
        m
    } else {
        RegistryModel {
            samples: with_sample(
                m.samples,
                SampleModel {
                    name,
                    labels,
                    value: ValueModel::Histogram(
                        observed(histogram_on_record(m.samples, name, labels, bounds), value),
                    ),
                },
            ),
            descriptions: m.descriptions,
        }
    }
}

/// The sum of a sequence of integers.
pub open spec fn sum_of(deltas: Seq<int>) -> int {
    deltas.fold_left(0int, |acc: int, d: int| acc + d)
}

/// The registry after the counter `(name, labels)` was asked to grow by each
/// of `deltas` in turn.
pub open spec fn after_increments(
    m: RegistryModel,
    name: Seq<char>,
    labels: Seq<Entry>,
    deltas: Seq<int>,
) -> RegistryModel
    decreases deltas.len(),
{
    if deltas.len() == 0 {
        m
    } else {
        after_increment(
            after_increments(m, name, labels, deltas.drop_last()),
            name,
            labels,
            deltas.last(),
        )
    }
}

} // verus!

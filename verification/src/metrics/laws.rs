//! What holds of the registry as the contracts see it: the order of its
//! samples, what a write does to the sample it names and to the others, and
//! how counters and gauges behave over many writes.

use vstd::prelude::*;
use vstd::seq_lib::{commutative_foldl, lemma_fold_left_permutation};
use crate::histogram::observed;
use crate::metrics::model::{
    after_increment, after_increments, after_observe, after_set, counter_value, has_sample,
    histogram_on_record, increment_result, key_lt, name_has_other_kind, registry_consistent,
    sample_before, sample_consistent, sample_position, sample_value, samples_sorted, set_result,
    sum_of, with_sample, MetricKind, RegistryModel, SampleModel, ValueModel,
};
use crate::text::{
    lemma_text_lt_irreflexive, lemma_text_lt_total, lemma_text_lt_transitive, text_lt,
};
use crate::textmap::{
    entries_sorted, lemma_entries_lt_irreflexive, lemma_entries_lt_total,
    lemma_entries_lt_transitive, lemma_same_lookups_same_entries, lookup, Entry,
};

verus! {

/// No identity precedes itself.
pub proof fn lemma_key_lt_irreflexive(name: Seq<char>, labels: Seq<Entry>)
    ensures
        !key_lt(name, labels, name, labels),
{
    lemma_text_lt_irreflexive(name);
    lemma_entries_lt_irreflexive(labels);
}

/// The order on identities is transitive.
pub proof fn lemma_key_lt_transitive(
    a_name: Seq<char>,
    a_labels: Seq<Entry>,
    b_name: Seq<char>,
    b_labels: Seq<Entry>,
    c_name: Seq<char>,
    c_labels: Seq<Entry>,
)
    requires
        key_lt(a_name, a_labels, b_name, b_labels),
        key_lt(b_name, b_labels, c_name, c_labels),
    ensures
        key_lt(a_name, a_labels, c_name, c_labels),
{
    if text_lt(a_name, b_name) && text_lt(b_name, c_name) {
        lemma_text_lt_transitive(a_name, b_name, c_name);
    } else if a_name == b_name && b_name == c_name {
        lemma_entries_lt_transitive(a_labels, b_labels, c_labels);
    }
}

/// Of two different identities exactly one precedes the other.
pub proof fn lemma_key_lt_total(
    a_name: Seq<char>,
    a_labels: Seq<Entry>,
    b_name: Seq<char>,
    b_labels: Seq<Entry>,
)
    ensures
        (a_name == b_name && a_labels == b_labels) || key_lt(a_name, a_labels, b_name, b_labels)
            || key_lt(b_name, b_labels, a_name, a_labels),
        !(key_lt(a_name, a_labels, b_name, b_labels) && key_lt(b_name, b_labels, a_name, a_labels)),
{
    lemma_text_lt_total(a_name, b_name);
    lemma_text_lt_irreflexive(a_name);
    lemma_entries_lt_total(a_labels, b_labels);
}

/// `sample_position` stays within the sequence, every sample in front of it
/// precedes the identity, and the sample at it does not.
pub proof fn lemma_sample_position(s: Seq<SampleModel>, name: Seq<char>, labels: Seq<Entry>)
    ensures
        0 <= sample_position(s, name, labels) <= s.len(),
        forall|j: int|
            0 <= j < sample_position(s, name, labels) ==> sample_before(#[trigger] s[j], name, labels),
        sample_position(s, name, labels) < s.len() ==> !sample_before(
            s[sample_position(s, name, labels)],
            name,
            labels,
        ),
    decreases s.len(),
{
    if s.len() > 0 && sample_before(s[0], name, labels) {
        let t = s.drop_first();
        lemma_sample_position(t, name, labels);
        assert forall|j: int| 0 <= j < sample_position(s, name, labels) implies sample_before(
            #[trigger] s[j],
            name,
            labels,
        ) by {
            if j > 0 {
                assert(s[j] == t[j - 1]);
            }
        }
    }
}

/// Once the first `n` samples are known to precede the identity, the
/// position can be counted from there.
pub proof fn lemma_sample_position_skip(
    s: Seq<SampleModel>,
    name: Seq<char>,
    labels: Seq<Entry>,
    n: int,
)
    requires
        0 <= n <= s.len(),
        forall|j: int| 0 <= j < n ==> sample_before(#[trigger] s[j], name, labels),
    ensures
        sample_position(s, name, labels) == n + sample_position(s.skip(n), name, labels),
    decreases n,
{
    if n == 0 {
        assert(s.skip(0) =~= s);
    } else {
        let t = s.drop_first();
        lemma_sample_position_skip(t, name, labels, n - 1);
        assert(t.skip(n - 1) =~= s.skip(n));
    }
}

/// The index up to which every sample precedes the identity, and at which
/// the sample does not, is the position of the identity.
pub proof fn lemma_sample_position_is(
    s: Seq<SampleModel>,
    name: Seq<char>,
    labels: Seq<Entry>,
    n: int,
)
    requires
        0 <= n <= s.len(),
        forall|j: int| 0 <= j < n ==> sample_before(#[trigger] s[j], name, labels),
        n < s.len() ==> !sample_before(s[n], name, labels),
    ensures
        sample_position(s, name, labels) == n,
{
    lemma_sample_position_skip(s, name, labels, n);
}

/// In an ordered sequence each sample stands at the position of its own
/// identity.
pub proof fn lemma_position_of_member(s: Seq<SampleModel>, index: int)
    requires
        samples_sorted(s),
        0 <= index < s.len(),
    ensures
        sample_position(s, s[index].name, s[index].labels) == index,
        has_sample(s, s[index].name, s[index].labels),
{
    lemma_key_lt_irreflexive(s[index].name, s[index].labels);
    lemma_sample_position_skip(s, s[index].name, s[index].labels, index);
}

/// Putting a sample in keeps the samples in order.
pub proof fn lemma_with_sample_sorted(s: Seq<SampleModel>, x: SampleModel)
    requires
        samples_sorted(s),
    ensures
        samples_sorted(with_sample(s, x)),
{
    let p = sample_position(s, x.name, x.labels);
    let r = with_sample(s, x);
    lemma_sample_position(s, x.name, x.labels);
    if !has_sample(s, x.name, x.labels) {
        assert forall|i: int, j: int| 0 <= i < j < r.len() implies key_lt(
            r[i].name,
            r[i].labels,
            r[j].name,
            r[j].labels,
        ) by {
            if i == p {
                lemma_key_lt_total(s[p].name, s[p].labels, x.name, x.labels);
                if j - 1 > p {
                    lemma_key_lt_transitive(
                        x.name,
                        x.labels,
                        s[p].name,
                        s[p].labels,
                        s[j - 1].name,
                        s[j - 1].labels,
                    );
                }
            }
        }
    }
}

/// Putting in a consistent sample whose kind is that of its name keeps the
/// registry consistent.
pub proof fn lemma_with_sample_consistent(m: RegistryModel, x: SampleModel)
    requires
        registry_consistent(m),
        sample_consistent(x),
        !name_has_other_kind(m.samples, x.name, x.value.kind()),
    ensures
        registry_consistent(
            RegistryModel { samples: with_sample(m.samples, x), descriptions: m.descriptions },
        ),
{
    lemma_sample_position(m.samples, x.name, x.labels);
    lemma_with_sample_sorted(m.samples, x);
}

/// A sample that was put in is the sample of its identity.
pub proof fn lemma_with_sample_found(s: Seq<SampleModel>, x: SampleModel)
    requires
        samples_sorted(s),
    ensures
        has_sample(with_sample(s, x), x.name, x.labels),
        sample_value(with_sample(s, x), x.name, x.labels) == Some(x.value),
        sample_position(with_sample(s, x), x.name, x.labels) == sample_position(
            s,
            x.name,
            x.labels,
        ),
{
    let p = sample_position(s, x.name, x.labels);
    let r = with_sample(s, x);
    lemma_sample_position(s, x.name, x.labels);
    lemma_key_lt_irreflexive(x.name, x.labels);
    lemma_sample_position_skip(r, x.name, x.labels, p);
}

/// Putting a sample in changes the sample of no other identity.
pub proof fn lemma_with_sample_others(
    s: Seq<SampleModel>,
    x: SampleModel,
    name: Seq<char>,
    labels: Seq<Entry>,
)
    requires
        samples_sorted(s),
        !(name == x.name && labels == x.labels),
    ensures
        sample_value(with_sample(s, x), name, labels) == sample_value(s, name, labels),
{
    let p = sample_position(s, x.name, x.labels);
    let q = sample_position(s, name, labels);
    let r = with_sample(s, x);
    lemma_sample_position(s, x.name, x.labels);
    lemma_sample_position(s, name, labels);
    lemma_key_lt_total(name, labels, x.name, x.labels);
    if has_sample(s, x.name, x.labels) {
        lemma_sample_position_is(r, name, labels, q);
    } else if key_lt(name, labels, x.name, x.labels) {
        if q > p {
            lemma_key_lt_transitive(s[p].name, s[p].labels, name, labels, x.name, x.labels);
        }
        if q == p && p < s.len() {
            lemma_key_lt_total(s[p].name, s[p].labels, x.name, x.labels);
            lemma_key_lt_irreflexive(name, labels);
        }
        lemma_sample_position_is(r, name, labels, q);
    } else {
        if p > q {
            lemma_key_lt_total(s[q].name, s[q].labels, name, labels);
            if !(s[q].name == name && s[q].labels == labels) {
                lemma_key_lt_transitive(name, labels, s[q].name, s[q].labels, x.name, x.labels);
            }
        }
        lemma_sample_position_is(r, name, labels, q + 1);
    }
}

/// Putting in a sample of one name does not bring another kind to a name.
pub proof fn lemma_with_sample_kinds(
    s: Seq<SampleModel>,
    x: SampleModel,
    name: Seq<char>,
    kind: MetricKind,
)
    requires
        !name_has_other_kind(s, name, kind),
        x.name == name ==> x.value.kind() == kind,
    ensures
        !name_has_other_kind(with_sample(s, x), name, kind),
{
    lemma_sample_position(s, x.name, x.labels);
}

/// Without its last sample, an ordered sequence gives every identity but the
/// last the value it gave before, and the last identity none.
pub proof fn lemma_value_drop_last(s: Seq<SampleModel>, name: Seq<char>, labels: Seq<Entry>)
    requires
        samples_sorted(s),
        s.len() > 0,
    ensures
        sample_value(s.drop_last(), name, labels) == (if name == s.last().name && labels
            == s.last().labels {
            None
        } else {
            sample_value(s, name, labels)
        }),
{
    let t = s.drop_last();
    let n = s.len() as int;
    let p = sample_position(s, name, labels);
    lemma_sample_position(s, name, labels);
    lemma_key_lt_irreflexive(name, labels);
    if p < n - 1 {
        lemma_sample_position_is(t, name, labels, p);
    } else {
        lemma_sample_position_is(t, name, labels, n - 1);
    }
}

/// Two ordered sequences that give every identity the same value are the
/// same sequence: what the samples are decides where each of them stands.
pub proof fn lemma_same_values_same_samples(a: Seq<SampleModel>, b: Seq<SampleModel>)
    requires
        samples_sorted(a),
        samples_sorted(b),
        forall|name: Seq<char>, labels: Seq<Entry>| #[trigger]
            sample_value(a, name, labels) == sample_value(b, name, labels),
    ensures
        a == b,
    decreases a.len(),
{
    if a.len() == 0 || b.len() == 0 {
        // An identity of the one that is not empty would be one of the other.
        if a.len() > 0 {
            lemma_position_of_member(a, 0);
            assert(sample_value(a, a[0].name, a[0].labels) == sample_value(
                b,
                a[0].name,
                a[0].labels,
            ));
        }
        if b.len() > 0 {
            lemma_position_of_member(b, 0);
            assert(sample_value(a, b[0].name, b[0].labels) == sample_value(
                b,
                b[0].name,
                b[0].labels,
            ));
        }
    } else {
        // The last identity of each is an identity of the other and the
        // greatest of its own, so the two last samples are the same; what
        // stands in front of them gives every identity the same value again.
        let x = a.last();
        let y = b.last();
        lemma_position_of_member(a, a.len() - 1);
        lemma_position_of_member(b, b.len() - 1);
        assert(sample_value(a, x.name, x.labels) == sample_value(b, x.name, x.labels));
        assert(sample_value(a, y.name, y.labels) == sample_value(b, y.name, y.labels));
        lemma_sample_position(b, x.name, x.labels);
        lemma_sample_position(a, y.name, y.labels);
        lemma_key_lt_total(x.name, x.labels, y.name, y.labels);
        lemma_key_lt_irreflexive(x.name, x.labels);
        assert(x == y);
        assert forall|name: Seq<char>, labels: Seq<Entry>| #[trigger]
            sample_value(a.drop_last(), name, labels) == sample_value(
                b.drop_last(),
                name,
                labels,
            ) by {
            lemma_value_drop_last(a, name, labels);
            lemma_value_drop_last(b, name, labels);
        }
        lemma_same_values_same_samples(a.drop_last(), b.drop_last());
        assert(a =~= a.drop_last().push(x));
        assert(b =~= b.drop_last().push(y));
    }
}

/// Two registries that hold the same value for every identity and the same
/// description for every name are the same registry, however each was
/// filled.
pub proof fn lemma_same_content_same_registry(a: RegistryModel, b: RegistryModel)
    requires
        registry_consistent(a),
        registry_consistent(b),
        forall|name: Seq<char>, labels: Seq<Entry>| #[trigger]
            sample_value(a.samples, name, labels) == sample_value(b.samples, name, labels),
        forall|name: Seq<char>| #[trigger]
            lookup(a.descriptions, name) == lookup(b.descriptions, name),
    ensures
        a == b,
{
    lemma_same_values_same_samples(a.samples, b.samples);
    lemma_same_lookups_same_entries(a.descriptions, b.descriptions);
}

/// Increments that are not negative, made one after another on a counter
/// whose name is in use for counters only, leave the registry consistent and
/// the counter at its former value plus the sum of the increments.
pub proof fn lemma_increments_add_up(
    m: RegistryModel,
    name: Seq<char>,
    labels: Seq<Entry>,
    deltas: Seq<int>,
)
    requires
        registry_consistent(m),
        entries_sorted(labels),
        !name_has_other_kind(m.samples, name, MetricKind::Counter),
        forall|i: int| 0 <= i < deltas.len() ==> deltas[i] >= 0,
    ensures
        registry_consistent(after_increments(m, name, labels, deltas)),
        !name_has_other_kind(
            after_increments(m, name, labels, deltas).samples,
            name,
            MetricKind::Counter,
        ),
        counter_value(after_increments(m, name, labels, deltas).samples, name, labels)
            == counter_value(m.samples, name, labels) + sum_of(deltas),
    decreases deltas.len(),
{
    if deltas.len() > 0 {
        let before = after_increments(m, name, labels, deltas.drop_last());
        lemma_increments_add_up(m, name, labels, deltas.drop_last());
        let x = SampleModel {
            name,
            labels,
            value: ValueModel::Counter(
                (counter_value(before.samples, name, labels) + deltas.last()) as nat,
            ),
        };
        lemma_with_sample_consistent(before, x);
        lemma_with_sample_found(before.samples, x);
        lemma_with_sample_kinds(before.samples, x, name, MetricKind::Counter);
    }
}

/// In whatever order the same increments reach a counter, it ends at the
/// same value.
pub proof fn lemma_increments_in_any_order(
    m: RegistryModel,
    name: Seq<char>,
    labels: Seq<Entry>,
    first: Seq<int>,
    second: Seq<int>,
)
    requires
        registry_consistent(m),
        entries_sorted(labels),
        !name_has_other_kind(m.samples, name, MetricKind::Counter),
        forall|i: int| 0 <= i < first.len() ==> first[i] >= 0,
        forall|i: int| 0 <= i < second.len() ==> second[i] >= 0,
        first.to_multiset() == second.to_multiset(),
    ensures
        counter_value(after_increments(m, name, labels, first).samples, name, labels)
            == counter_value(after_increments(m, name, labels, second).samples, name, labels),
{
    lemma_increments_add_up(m, name, labels, first);
    lemma_increments_add_up(m, name, labels, second);
    let plus = |acc: int, d: int| acc + d;
    assert(commutative_foldl(plus));
    lemma_fold_left_permutation(first, second, plus, 0int);
}

/// A counter never goes down: whatever it is asked to grow by, it stands
/// afterwards where it stood or higher.
pub proof fn lemma_counter_never_decreases(
    m: RegistryModel,
    name: Seq<char>,
    labels: Seq<Entry>,
    delta: int,
)
    requires
        registry_consistent(m),
    ensures
        counter_value(after_increment(m, name, labels, delta).samples, name, labels)
            >= counter_value(m.samples, name, labels),
{
    if increment_result(m, name, delta) is Ok {
        lemma_with_sample_found(
            m.samples,
            SampleModel {
                name,
                labels,
                value: ValueModel::Counter((counter_value(m.samples, name, labels) + delta) as nat),
            },
        );
    }
}

/// A gauge that was set shows the value it was set to, whatever it showed
/// before.
pub proof fn lemma_gauge_shows_what_was_set(
    m: RegistryModel,
    name: Seq<char>,
    labels: Seq<Entry>,
    value: int,
)
    requires
        registry_consistent(m),
        set_result(m, name) is Ok,
    ensures
        sample_value(after_set(m, name, labels, value).samples, name, labels) == Some(
            ValueModel::Gauge(value),
        ),
{
    lemma_with_sample_found(m.samples, SampleModel { name, labels, value: ValueModel::Gauge(value) });
}

/// A write to one sample, refused or not, changes no other sample.
pub proof fn lemma_writes_leave_others(
    m: RegistryModel,
    name: Seq<char>,
    labels: Seq<Entry>,
    other_name: Seq<char>,
    other_labels: Seq<Entry>,
    delta: int,
    value: int,
    bounds: Seq<int>,
)
    requires
        registry_consistent(m),
        !(other_name == name && other_labels == labels),
    ensures
        sample_value(after_increment(m, name, labels, delta).samples, other_name, other_labels)
            == sample_value(m.samples, other_name, other_labels),
        sample_value(after_set(m, name, labels, value).samples, other_name, other_labels)
            == sample_value(m.samples, other_name, other_labels),
        sample_value(
            after_observe(m, name, labels, bounds, value).samples,
            other_name,
            other_labels,
        ) == sample_value(m.samples, other_name, other_labels),
{
    lemma_with_sample_others(
        m.samples,
        SampleModel {
            name,
            labels,
            value: ValueModel::Counter((counter_value(m.samples, name, labels) + delta) as nat),
        },
        other_name,
        other_labels,
    );
    lemma_with_sample_others(
        m.samples,
        SampleModel { name, labels, value: ValueModel::Gauge(value) },
        other_name,
        other_labels,
    );
    lemma_with_sample_others(
        m.samples,
        SampleModel {
            name,
            labels,
            value: ValueModel::Histogram(
                observed(histogram_on_record(m.samples, name, labels, bounds), value),
            ),
        },
        other_name,
        other_labels,
    );
}

} // verus!

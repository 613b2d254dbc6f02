//! The registry written out as text, for a collector that comes and reads.
//!
//! Each name has one block of lines: a `# HELP` line, a `# TYPE` line and the
//! lines of its samples, in the registry's order. An empty line stands
//! between two blocks. A counter or a gauge is one line; a histogram is one
//! line for each bucket, one for the bucket without a bound, one for the sum
//! and one for the count. In a description and in the value of a label, a
//! character that would break the line or end the value is written with a
//! backslash in front.

use vstd::prelude::*;
use vstd::string::*;
use crate::escape::{escaped, push_escaped, Place};
use crate::histogram::{Histogram, HistogramModel};
use crate::metrics::laws::lemma_same_content_same_registry;
use crate::metrics::model::{
    registry_consistent, sample_value, MetricKind, RegistryModel, SampleModel, ValueModel,
};
use crate::metrics::registry::{MetricSample, MetricValue, MetricsRegistry};
use crate::text::{
    decimal, place_text, push_decimal, push_signed_decimal, signed_decimal, Placement,
};
use crate::textmap::{lookup, Entry, TextMap};

verus! {

/// The texts of a sequence of lines.
pub open spec fn lines_of(lines: Seq<String>) -> Seq<Seq<char>> {
    Seq::new(lines.len(), |i: int| lines[i]@)
}

/// The word that names a kind in a `# TYPE` line.
pub open spec fn kind_word(kind: MetricKind) -> Seq<char> {
    match kind {
        MetricKind::Counter => "counter"@,
        MetricKind::Gauge => "gauge"@,
        MetricKind::Histogram => "histogram"@,
    }
}

/// The line that describes a name.
pub open spec fn help_line(name: Seq<char>, description: Seq<char>) -> Seq<char> {
    "# HELP "@ + name + " "@ + escaped(Place::Description, description)
}

/// The line that tells the kind of a name.
pub open spec fn type_line(name: Seq<char>, kind: MetricKind) -> Seq<char> {
    "# TYPE "@ + name + " "@ + kind_word(kind)
}

/// One label: its key, and its value in double quotes.
pub open spec fn label_text(e: Entry) -> Seq<char> {
    e.0 + "=\""@ + escaped(Place::LabelValue, e.1) + "\""@
}

/// The labels in their order, with a comma between two of them.
pub open spec fn labels_joined(labels: Seq<Entry>) -> Seq<char>
    decreases labels.len(),
{
    if labels.len() == 0 {
        Seq::empty()
    } else if labels.len() == 1 {
        label_text(labels[0])
    } else {
        labels_joined(labels.drop_last()) + ","@ + label_text(labels.last())
    }
}

/// The labels in braces, or nothing where there is no label.
pub open spec fn label_block(labels: Seq<Entry>) -> Seq<char> {
    if labels.len() == 0 {
        Seq::empty()
    } else {
        "{"@ + labels_joined(labels) + "}"@
    }
}

/// The upper bound of a bucket as its `le` label shows it.
pub open spec fn bound_text(bound: Option<int>) -> Seq<char> {
    match bound {
        Some(b) => signed_decimal(b),
        None => "+Inf"@,
    }
}

/// The labels of a bucket in braces: those of the sample, then `le`.
pub open spec fn bucket_block(labels: Seq<Entry>, bound: Option<int>) -> Seq<char> {
    "{"@ + (if labels.len() == 0 {
        Seq::empty()
    } else {
        labels_joined(labels) + ","@
    }) + "le=\""@ + bound_text(bound) + "\"}"@
}

/// The line of a counter or gauge, or of a histogram's sum or count.
pub open spec fn sample_line(
    name: Seq<char>,
    suffix: Seq<char>,
    labels: Seq<Entry>,
    value: int,
) -> Seq<char> {
    name + suffix + label_block(labels) + " "@ + signed_decimal(value)
}

/// The line of one bucket of a histogram.
pub open spec fn bucket_line(
    name: Seq<char>,
    labels: Seq<Entry>,
    bound: Option<int>,
    count: nat,
) -> Seq<char> {
    name + "_bucket"@ + bucket_block(labels, bound) + " "@ + decimal(count)
}

/// The lines of the first `n` buckets of a histogram.
pub open spec fn bucket_lines(name: Seq<char>, labels: Seq<Entry>, h: HistogramModel, n: int) -> Seq<
    Seq<char>,
> {
    Seq::new(n as nat, |j: int| bucket_line(name, labels, Some(h.bounds[j]), h.counts[j]))
}

/// The lines of a histogram: its buckets, the bucket without a bound, the
/// sum and the count.
pub open spec fn histogram_lines(name: Seq<char>, labels: Seq<Entry>, h: HistogramModel) -> Seq<
    Seq<char>,
> {
    bucket_lines(name, labels, h, h.bounds.len() as int) + seq![
        bucket_line(name, labels, None, h.count),
        sample_line(name, "_sum"@, labels, h.sum),
        sample_line(name, "_count"@, labels, h.count as int),
    ]
}

/// The lines that show the value of a sample.
pub open spec fn value_lines(s: SampleModel) -> Seq<Seq<char>> {
    match s.value {
        ValueModel::Counter(v) => seq![sample_line(s.name, Seq::empty(), s.labels, v as int)],
        ValueModel::Gauge(v) => seq![sample_line(s.name, Seq::empty(), s.labels, v)],
        ValueModel::Histogram(h) => histogram_lines(s.name, s.labels, h),
    }
}

/// Whether the sample at `index` is the first of its name.
pub open spec fn starts_block(samples: Seq<SampleModel>, index: int) -> bool {
    index == 0 || samples[index - 1].name != samples[index].name
}

/// The description of a name; a name that was never described has the empty
/// one.
pub open spec fn description_of(descriptions: Seq<Entry>, name: Seq<char>) -> Seq<char> {
    match lookup(descriptions, name) {
        Some(text) => text,
        None => Seq::empty(),
    }
}

/// The lines in front of the sample at `index`: none unless it is the first
/// of its name, else the empty line that ends the block before it, if there
/// is one, and the two lines that open its own.
pub open spec fn header_lines(m: RegistryModel, index: int) -> Seq<Seq<char>> {
    if !starts_block(m.samples, index) {
        Seq::empty()
    } else {
        let s = m.samples[index];
        (if index > 0 {
            seq![Seq::<char>::empty()]
        } else {
            Seq::empty()
        }) + seq![
            help_line(s.name, description_of(m.descriptions, s.name)),
            type_line(s.name, s.value.kind()),
        ]
    }
}

/// The lines that the sample at `index` brings to the text.
pub open spec fn sample_lines(m: RegistryModel, index: int) -> Seq<Seq<char>> {
    header_lines(m, index) + value_lines(m.samples[index])
}

/// The lines of the first `n` samples.
pub open spec fn rendered_prefix(m: RegistryModel, n: int) -> Seq<Seq<char>>
    decreases n,
{
    if n <= 0 {
        Seq::empty()
    } else {
        rendered_prefix(m, n - 1) + sample_lines(m, n - 1)
    }
}

/// The registry as text, line by line.
pub open spec fn rendered(m: RegistryModel) -> Seq<Seq<char>> {
    rendered_prefix(m, m.samples.len() as int)
}

/// Two renderings of one registry are the same text, line for line.
pub proof fn lemma_render_stable(registry: MetricsRegistry, first: Vec<String>, second: Vec<String>)
    requires
        lines_of(first@) == rendered(registry@),
        lines_of(second@) == rendered(registry@),
    ensures
        first@.len() == second@.len(),
        forall|i: int| 0 <= i < first@.len() ==> first@[i]@ == second@[i]@,
{
    assert(lines_of(second@).len() == second@.len());
    assert forall|i: int| 0 <= i < first@.len() implies first@[i]@ == second@[i]@ by {
        assert(lines_of(second@)[i] == second@[i]@);
    }
}

/// Registries that hold the same value for every identity and the same
/// description for every name are written out as the same text, in whatever
/// order they were filled.
pub proof fn lemma_render_by_content(a: RegistryModel, b: RegistryModel)
    requires
        registry_consistent(a),
        registry_consistent(b),
        forall|name: Seq<char>, labels: Seq<Entry>| #[trigger]
            sample_value(a.samples, name, labels) == sample_value(b.samples, name, labels),
        forall|name: Seq<char>| #[trigger]
            lookup(a.descriptions, name) == lookup(b.descriptions, name),
    ensures
        rendered(a) == rendered(b),
{
    lemma_same_content_same_registry(a, b);
}

/// Adds a line to the lines.
fn push_line(lines: &mut Vec<String>, line: String)
    ensures
        lines_of(final(lines)@) == lines_of(old(lines)@).push(line@),
{
    lines.push(line);
}

/// Writes the labels, with a comma between two of them.
fn push_labels(out: &mut String, labels: &TextMap)
    ensures
        final(out)@ == old(out)@ + labels_joined(labels@),
{
    let ghost start = out@;
    let n: usize = labels.len();
    let mut i: usize = 0;
    while i < n
        invariant
            n == labels@.len(),
            i <= n,
            out@ == start + labels_joined(labels@.take(i as int)),
        decreases n - i,
    {
        if i > 0 {
            out.append(",");
        }
        out.append(labels.key_at(i).as_str());
        out.append("=\"");
        push_escaped(out, labels.value_at(i).as_str(), Place::LabelValue);
        out.append("\"");
        assert(labels@.take(i + 1).drop_last() =~= labels@.take(i as int));
        i = i + 1;
    }
    assert(labels@.take(n as int) =~= labels@);
}

/// The line that describes a name.
fn help_line_text(name: &str, description: &str) -> (line: String)
    ensures
        line@ == help_line(name@, description@),
{
    let mut line = String::new();
    line.append("# HELP ");
    line.append(name);
    line.append(" ");
    push_escaped(&mut line, description, Place::Description);
    line
}

/// The line that tells the kind of a name.
fn type_line_text(name: &str, kind: MetricKind) -> (line: String)
    ensures
        line@ == type_line(name@, kind),
{
    let mut line = String::new();
    line.append("# TYPE ");
    line.append(name);
    line.append(" ");
    match kind {
        MetricKind::Counter => line.append("counter"),
        MetricKind::Gauge => line.append("gauge"),
        MetricKind::Histogram => line.append("histogram"),
    }
    line
}

/// The line of a counter or gauge, or of a histogram's sum or count.
fn sample_line_text(name: &str, suffix: &str, labels: &TextMap, value: i128) -> (line: String)
    ensures
        line@ == sample_line(name@, suffix@, labels@, value as int),
{
    let mut line = String::new();
    line.append(name);
    line.append(suffix);
    if labels.len() > 0 {
        line.append("{");
        push_labels(&mut line, labels);
        line.append("}");
    }
    line.append(" ");
    push_signed_decimal(&mut line, value);
    line
}

/// The line of one bucket of a histogram.
fn bucket_line_text(name: &str, labels: &TextMap, bound: Option<i64>, count: u64) -> (line: String)
    ensures
        line@ == bucket_line(
            name@,
            labels@,
            match bound {
                Some(b) => Some(b as int),
                None => None,
            },
            count as nat,
        ),
{
    let mut line = String::new();
    line.append(name);
    line.append("_bucket");
    line.append("{");
    if labels.len() > 0 {
        push_labels(&mut line, labels);
        line.append(",");
    }
    line.append("le=\"");
    match bound {
        Some(b) => push_signed_decimal(&mut line, b as i128),
        None => line.append("+Inf"),
    }
    line.append("\"}");
    line.append(" ");
    push_decimal(&mut line, count as u128);
    line
}

/// Adds the lines of a histogram to the lines.
fn push_histogram_lines(lines: &mut Vec<String>, name: &str, labels: &TextMap, h: &Histogram)
    ensures
        lines_of(final(lines)@) == lines_of(old(lines)@) + histogram_lines(name@, labels@, h@),
{
    let ghost start = lines_of(lines@);
    let n: usize = h.bucket_len();
    let mut j: usize = 0;
    while j < n
        invariant
            n == h@.bounds.len(),
            n == h@.counts.len(),
            j <= n,
            lines_of(lines@) == start + bucket_lines(name@, labels@, h@, j as int),
        decreases n - j,
    {
        let line = bucket_line_text(name, labels, Some(h.bound_at(j)), h.count_at(j));
        push_line(lines, line);
        j = j + 1;
    }
    push_line(lines, bucket_line_text(name, labels, None, h.count()));
    push_line(lines, sample_line_text(name, "_sum", labels, h.sum()));
    push_line(lines, sample_line_text(name, "_count", labels, h.count() as i128));
}

/// Adds the lines that show the value of a sample to the lines.
fn push_value_lines(lines: &mut Vec<String>, sample: &MetricSample)
    ensures
        lines_of(final(lines)@) == lines_of(old(lines)@) + value_lines(sample@),
{
    match &sample.value {
        MetricValue::Counter(v) => {
            push_line(lines, sample_line_text(sample.name.as_str(), "", &sample.labels, *v as i128));
            assert(""@ =~= Seq::<char>::empty()) by {
                reveal_strlit("");
            }
        },
        MetricValue::Gauge(v) => {
            push_line(lines, sample_line_text(sample.name.as_str(), "", &sample.labels, *v as i128));
            assert(""@ =~= Seq::<char>::empty()) by {
                reveal_strlit("");
            }
        },
        MetricValue::Histogram(h) => {
            push_histogram_lines(lines, sample.name.as_str(), &sample.labels, h);
        },
    }
}

impl MetricsRegistry {
    /// Adds the lines that the sample at `index` brings to the text.
    fn push_sample_lines(&self, lines: &mut Vec<String>, index: usize)
        requires
            index < self@.samples.len(),
        ensures
            lines_of(final(lines)@) == lines_of(old(lines)@) + sample_lines(self@, index as int),
    {
        let sample = self.sample_at(index);
        let name: &str = sample.name.as_str();
        let first_of_name: bool = index == 0 || place_text(
            self.sample_at(index - 1).name.as_str(),
            name,
        ) != Placement::Same;
        if first_of_name {
            if index > 0 {
                push_line(lines, String::new());
            }
            let line: String = match self.description(name) {
                Some(text) => help_line_text(name, text.as_str()),
                None => {
                    assert(""@ =~= Seq::<char>::empty()) by {
                        reveal_strlit("");
                    }
                    help_line_text(name, "")
                },
            };
            push_line(lines, line);
            push_line(lines, type_line_text(name, sample.value.kind()));
        }
        push_value_lines(lines, sample);
    }

    /// The lines that the sample at `index` brings to the text: the lines of
    /// its value, with the lines that open the block of its name in front if
    /// it is the first of that name. The whole text is these lines for each
    /// index in turn.
    pub fn render_sample(&self, index: usize) -> (lines: Vec<String>)
        requires
            index < self@.samples.len(),
        ensures
            lines_of(lines@) == sample_lines(self@, index as int),
    {
        let mut lines: Vec<String> = Vec::new();
        self.push_sample_lines(&mut lines, index);
        lines
    }

    /// The registry as text, line by line. The registry is only read, and
    /// what it holds decides every line.
    pub fn render(&self) -> (lines: Vec<String>)
        ensures
            lines_of(lines@) == rendered(self@),
    {
        let mut lines: Vec<String> = Vec::new();
        let n: usize = self.len();
        let mut i: usize = 0;
        while i < n
            invariant
                n == self@.samples.len(),
                i <= n,
                lines_of(lines@) == rendered_prefix(self@, i as int),
            decreases n - i,
        {
            self.push_sample_lines(&mut lines, i);
            i = i + 1;
        }
        lines
    }
}

} // verus!

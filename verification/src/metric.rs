//! Metric families and the text each of them renders to.
//!
//! A family is a name, a help text, a kind and the samples gathered under it.
//! Its text is two header lines followed by one line per sample, in the order
//! in which the samples were added.

use prometheus_exporter_base::{MetricType, PrometheusMetric};
use vstd::prelude::*;
use vstd::string::StringExecFns;

verus! {

/// The type of a metric family, as announced on its `# TYPE` line.
#[derive(Clone, Copy, Debug, PartialEq, Eq, Structural)]
pub enum MetricKind {
    Gauge,
    Counter,
}

impl MetricKind {
    /// The keyword that stands for this kind in the exposition format.
    pub open spec fn keyword(self) -> Seq<char> {
        match self {
            MetricKind::Gauge => "gauge"@,
            MetricKind::Counter => "counter"@,
        }
    }
}

/// One label of a sample: a name and the value attached to it.
#[derive(Clone, Debug, PartialEq, Eq)]
pub struct Label {
    pub name: String,
    pub value: String,
}

/// What a [`Label`] stands for: its name and its value as character sequences.
pub struct LabelView {
    pub name: Seq<char>,
    pub value: Seq<char>,
}

impl View for Label {
    type V = LabelView;

    open spec fn view(&self) -> LabelView {
        LabelView { name: self.name@, value: self.value@ }
    }
}

/// The views of a list of labels, in the same order.
pub open spec fn label_views(labels: Seq<Label>) -> Seq<LabelView> {
    labels.map_values(|label: Label| label@)
}

/// One sample of a family: its labels, in the order in which they are
/// written out, and its value.
#[derive(Clone, Debug, PartialEq, Eq)]
pub struct Sample {
    pub labels: Vec<Label>,
    pub value: u64,
}

/// What a [`Sample`] stands for.
pub struct SampleView {
    pub labels: Seq<LabelView>,
    pub value: u64,
}

impl View for Sample {
    type V = SampleView;

    open spec fn view(&self) -> SampleView {
        SampleView { labels: label_views(self.labels@), value: self.value }
    }
}

/// The views of a list of samples, in the same order.
pub open spec fn sample_views(samples: Seq<Sample>) -> Seq<SampleView> {
    samples.map_values(|sample: Sample| sample@)
}

/// A named, typed group of samples that share one help text.
#[derive(Clone, Debug, PartialEq, Eq)]
pub struct MetricFamily {
    pub name: String,
    pub help: String,
    pub kind: MetricKind,
    pub samples: Vec<Sample>,
}

/// What a [`MetricFamily`] stands for.
pub struct FamilyView {
    pub name: Seq<char>,
    pub help: Seq<char>,
    pub kind: MetricKind,
    pub samples: Seq<SampleView>,
}

impl View for MetricFamily {
    type V = FamilyView;

    open spec fn view(&self) -> FamilyView {
        FamilyView {
            name: self.name@,
            help: self.help@,
            kind: self.kind,
            samples: sample_views(self.samples@),
        }
    }
}

/// The views of a list of families, in the same order.
pub open spec fn family_views(families: Seq<MetricFamily>) -> Seq<FamilyView> {
    families.map_values(|family: MetricFamily| family@)
}

/// The character that stands for a decimal digit.
pub open spec fn digit_char(digit: nat) -> char {
    if digit == 0 {
        '0'
    } else if digit == 1 {
        '1'
    } else if digit == 2 {
        '2'
    } else if digit == 3 {
        '3'
    } else if digit == 4 {
        '4'
    } else if digit == 5 {
        '5'
    } else if digit == 6 {
        '6'
    } else if digit == 7 {
        '7'
    } else if digit == 8 {
        '8'
    } else {
        '9'
    }
}

/// A natural number written in base ten, without sign or leading zeros.
pub open spec fn decimal_text(n: nat) -> Seq<char>
    decreases n,
{
    if n < 10 {
        seq![digit_char(n)]
    } else {
        decimal_text(n / 10).push(digit_char(n % 10))
    }
}

/// The help line of a family, without its line feed.
pub open spec fn help_line(name: Seq<char>, help: Seq<char>) -> Seq<char> {
    "# HELP "@ + name + " "@ + help
}

/// The type line of a family, without its line feed.
pub open spec fn type_line(name: Seq<char>, kind: MetricKind) -> Seq<char> {
    "# TYPE "@ + name + " "@ + kind.keyword()
}

/// The two header lines of a family: its help line, then its type line, each
/// ended by a line feed.
pub open spec fn header_text(name: Seq<char>, kind: MetricKind, help: Seq<char>) -> Seq<char> {
    help_line(name, help) + "\n"@ + type_line(name, kind) + "\n"@
}

/// One label as it stands between the braces of a sample line.
pub open spec fn label_text(label: LabelView) -> Seq<char> {
    label.name + "=\""@ + label.value + "\""@
}

/// The labels of a sample, separated by commas, in their given order.
pub open spec fn labels_text(labels: Seq<LabelView>) -> Seq<char>
    decreases labels.len(),
{
    if labels.len() == 0 {
        Seq::empty()
    } else if labels.len() == 1 {
        label_text(labels[0])
    } else {
        labels_text(labels.drop_last()) + ","@ + label_text(labels.last())
    }
}

/// The line of one sample, without its line feed: the family's name, the
/// labels in braces (left out when there are none), a space and the value in
/// base ten.
pub open spec fn sample_line(name: Seq<char>, labels: Seq<LabelView>, value: u64) -> Seq<char> {
    if labels.len() == 0 {
        name + " "@ + decimal_text(value as nat)
    } else {
        name + "{"@ + labels_text(labels) + "} "@ + decimal_text(value as nat)
    }
}

/// The line of one sample, ended by a line feed.
pub open spec fn sample_text(name: Seq<char>, labels: Seq<LabelView>, value: u64) -> Seq<char> {
    sample_line(name, labels, value) + "\n"@
}

/// The lines of a family's samples, one after the other.
pub open spec fn samples_text(name: Seq<char>, samples: Seq<SampleView>) -> Seq<char>
    decreases samples.len(),
{
    if samples.len() == 0 {
        Seq::empty()
    } else {
        samples_text(name, samples.drop_last()) + sample_text(
            name,
            samples.last().labels,
            samples.last().value,
        )
    }
}

/// The text of a whole family: its header, then its sample lines.
pub open spec fn family_text(family: FamilyView) -> Seq<char> {
    header_text(family.name, family.kind, family.help) + samples_text(family.name, family.samples)
}

/// The text of several families, one after the other.
pub open spec fn exposition_text(families: Seq<FamilyView>) -> Seq<char>
    decreases families.len(),
{
    if families.len() == 0 {
        Seq::empty()
    } else {
        exposition_text(families.drop_last()) + family_text(families.last())
    }
}

/// The lines of a sample list made of two parts are the lines of the first
/// part followed by the lines of the second.
pub proof fn lemma_samples_text_concat(
    name: Seq<char>,
    first: Seq<SampleView>,
    second: Seq<SampleView>,
)
    ensures
        samples_text(name, first + second) == samples_text(name, first) + samples_text(
            name,
            second,
        ),
    decreases second.len(),
{
    if second.len() == 0 {
        assert(first + second == first);
    } else {
        assert((first + second).drop_last() == first + second.drop_last());
        assert((first + second).last() == second.last());
        lemma_samples_text_concat(name, first, second.drop_last());
    }
}

/// The text of a family list made of two parts is the text of the first part
/// followed by the text of the second.
pub proof fn lemma_exposition_text_concat(first: Seq<FamilyView>, second: Seq<FamilyView>)
    ensures
        exposition_text(first + second) == exposition_text(first) + exposition_text(second),
    decreases second.len(),
{
    if second.len() == 0 {
        assert(first + second == first);
    } else {
        assert((first + second).drop_last() == first + second.drop_last());
        assert((first + second).last() == second.last());
        lemma_exposition_text_concat(first, second.drop_last());
    }
}

/// In the text of a family the header stands once, at the very start, and
/// the line of each sample stands behind it: after the header and the lines
/// of the samples added earlier, before the lines of the samples added later.
pub proof fn lemma_header_before_each_sample(family: FamilyView, i: int)
    requires
        0 <= i < family.samples.len(),
    ensures
        family_text(family) == header_text(family.name, family.kind, family.help) + samples_text(
            family.name,
            family.samples.take(i),
        ) + sample_text(family.name, family.samples[i].labels, family.samples[i].value)
            + samples_text(family.name, family.samples.skip(i + 1)),
{
    let upto = family.samples.take(i + 1);
    let rest = family.samples.skip(i + 1);
    assert(family.samples == upto + rest);
    lemma_samples_text_concat(family.name, upto, rest);
    assert(upto.drop_last() == family.samples.take(i));
    assert(upto.last() == family.samples[i]);
}

/// In the text of several families each family stands once, whole and in its
/// place: after the text of the families before it and before the text of
/// those behind it. So every header is followed by the lines of its own
/// samples and by no others before the next header.
pub proof fn lemma_each_family_in_its_place(families: Seq<FamilyView>, k: int)
    requires
        0 <= k < families.len(),
    ensures
        exposition_text(families) == exposition_text(families.take(k)) + family_text(families[k])
            + exposition_text(families.skip(k + 1)),
{
    let upto = families.take(k + 1);
    let rest = families.skip(k + 1);
    assert(families == upto + rest);
    lemma_exposition_text_concat(upto, rest);
    assert(upto.drop_last() == families.take(k));
    assert(upto.last() == families[k]);
}

/// The lines of a family, each without its line feed: the help line, the
/// type line, then the line of each sample in the order of the samples.
pub open spec fn family_lines(family: FamilyView) -> Seq<Seq<char>> {
    seq![help_line(family.name, family.help), type_line(family.name, family.kind)]
        + family.samples.map_values(
        |sample: SampleView| sample_line(family.name, sample.labels, sample.value),
    )
}

/// The text that lines make when each of them is ended by a line feed.
pub open spec fn lines_text(lines: Seq<Seq<char>>) -> Seq<char>
    decreases lines.len(),
{
    if lines.len() == 0 {
        Seq::empty()
    } else {
        lines_text(lines.drop_last()) + lines.last() + "\n"@
    }
}

/// Whether a text holds no line feed, so that it stays within one line.
pub open spec fn single_line(text: Seq<char>) -> bool {
    forall|i: int| 0 <= i < text.len() ==> text[i] != '\n'
}

/// Whether a line begins with `#`, as the header lines do.
pub open spec fn is_header_line(line: Seq<char>) -> bool {
    line.len() > 0 && line[0] == '#'
}

/// Whether no name and no value of the labels holds a line feed.
pub open spec fn single_line_labels(labels: Seq<LabelView>) -> bool {
    forall|i: int|
        0 <= i < labels.len() ==> single_line((#[trigger] labels[i]).name) && single_line(
            labels[i].value,
        )
}

/// Whether the name, the help text and every label of a family stay within
/// one line.
pub open spec fn single_line_family(family: FamilyView) -> bool {
    &&& single_line(family.name)
    &&& single_line(family.help)
    &&& forall|i: int|
        0 <= i < family.samples.len() ==> single_line_labels((#[trigger] family.samples[i]).labels)
}

/// The text of a line list made of two parts is the text of the first part
/// followed by the text of the second.
proof fn lemma_lines_text_concat(first: Seq<Seq<char>>, second: Seq<Seq<char>>)
    ensures
        lines_text(first + second) == lines_text(first) + lines_text(second),
    decreases second.len(),
{
    if second.len() == 0 {
        assert(first + second == first);
    } else {
        assert((first + second).drop_last() == first + second.drop_last());
        assert((first + second).last() == second.last());
        lemma_lines_text_concat(first, second.drop_last());
    }
}

/// The sample lines of a family, each ended by a line feed, make the text of
/// its samples.
proof fn lemma_sample_lines_text(name: Seq<char>, samples: Seq<SampleView>)
    ensures
        lines_text(
            samples.map_values(|sample: SampleView| sample_line(name, sample.labels, sample.value)),
        ) == samples_text(name, samples),
    decreases samples.len(),
{
    let line_of = |sample: SampleView| sample_line(name, sample.labels, sample.value);
    if samples.len() > 0 {
        lemma_sample_lines_text(name, samples.drop_last());
        assert(samples.map_values(line_of).drop_last() == samples.drop_last().map_values(line_of));
    }
}

/// The text of a family is made of its lines and of nothing else: each line
/// once, in order, each ended by a line feed.
pub proof fn lemma_family_text_is_its_lines(family: FamilyView)
    ensures
        family_text(family) == lines_text(family_lines(family)),
        family_lines(family).len() == 2 + family.samples.len(),
{
    let header = seq![help_line(family.name, family.help), type_line(family.name, family.kind)];
    let rest = family.samples.map_values(
        |sample: SampleView| sample_line(family.name, sample.labels, sample.value),
    );
    lemma_lines_text_concat(header, rest);
    lemma_sample_lines_text(family.name, family.samples);
    let first = header.drop_last();
    assert(first.last() == help_line(family.name, family.help));
    assert(first.drop_last() == Seq::<Seq<char>>::empty());
    assert(lines_text(first.drop_last()) == Seq::<char>::empty());
    assert(lines_text(first) == Seq::<char>::empty() + first.last() + "\n"@);
    assert(lines_text(first) == help_line(family.name, family.help) + "\n"@);
    assert(header.last() == type_line(family.name, family.kind));
    assert(lines_text(header) == header_text(family.name, family.kind, family.help));
}

/// A number in base ten has at least one digit and holds no line feed.
proof fn lemma_decimal_text_single_line(n: nat)
    ensures
        single_line(decimal_text(n)),
        decimal_text(n).len() > 0,
    decreases n,
{
    if n >= 10 {
        lemma_decimal_text_single_line(n / 10);
    }
}

/// Labels that stay within one line make a text that stays within one line.
proof fn lemma_labels_text_single_line(labels: Seq<LabelView>)
    requires
        single_line_labels(labels),
    ensures
        single_line(labels_text(labels)),
    decreases labels.len(),
{
    reveal_strlit("=\"");
    reveal_strlit("\"");
    reveal_strlit(",");
    if labels.len() == 1 {
        assert(single_line(labels[0].name));
    } else if labels.len() > 1 {
        assert(single_line_labels(labels.drop_last())) by {
            assert forall|i: int| 0 <= i < labels.drop_last().len() implies single_line(
                (#[trigger] labels.drop_last()[i]).name,
            ) && single_line(labels.drop_last()[i].value) by {
                assert(labels.drop_last()[i] == labels[i]);
            }
        }
        lemma_labels_text_single_line(labels.drop_last());
        assert(single_line(labels.last().name));
    }
}

/// A sample line of single-line texts stays within one line, and begins with
/// `#` only if the family's name does.
proof fn lemma_sample_line_shape(name: Seq<char>, labels: Seq<LabelView>, value: u64)
    requires
        single_line(name),
        single_line_labels(labels),
        !is_header_line(name),
    ensures
        single_line(sample_line(name, labels, value)),
        !is_header_line(sample_line(name, labels, value)),
{
    reveal_strlit(" ");
    reveal_strlit("{");
    reveal_strlit("} ");
    lemma_decimal_text_single_line(value as nat);
    lemma_labels_text_single_line(labels);
    let line = sample_line(name, labels, value);
    if name.len() > 0 {
        assert(line[0] == name[0]);
    } else if labels.len() == 0 {
        assert(line[0] == ' ');
    } else {
        assert(line[0] == '{');
    }
}

/// In a family whose name, help text and labels stay within one line and
/// whose name does not begin with `#`, every line stays a line of its own,
/// and the header lines are the first two lines and no others: the header
/// stands exactly once, before every sample.
pub proof fn lemma_header_lines_once(family: FamilyView)
    requires
        single_line_family(family),
        !is_header_line(family.name),
    ensures
        forall|i: int|
            0 <= i < family_lines(family).len() ==> {
                &&& single_line(#[trigger] family_lines(family)[i])
                &&& is_header_line(family_lines(family)[i]) <==> i < 2
            },
{
    reveal_strlit("# HELP ");
    reveal_strlit("# TYPE ");
    reveal_strlit(" ");
    reveal_strlit("gauge");
    reveal_strlit("counter");
    let lines = family_lines(family);
    assert forall|i: int| 0 <= i < lines.len() implies single_line(#[trigger] lines[i]) && (
    is_header_line(lines[i]) <==> i < 2) by {
        if i == 0 {
            assert(lines[0] == help_line(family.name, family.help));
            assert(lines[0][0] == '#');
        } else if i == 1 {
            assert(lines[1] == type_line(family.name, family.kind));
            assert(lines[1][0] == '#');
        } else {
            let sample = family.samples[i - 2];
            assert(lines[i] == sample_line(family.name, sample.labels, sample.value));
            lemma_sample_line_shape(family.name, sample.labels, sample.value);
        }
    }
}

/// Calls `PrometheusMetric::new` and `PrometheusMetric::render_header` of
/// prometheus_exporter_base. Trusted: the text is the `# HELP` line with the
/// name and the help text, followed by the `# TYPE` line with the name and
/// the kind's keyword, each ended by a line feed.
#[verifier::external_body]
fn outside_render_header(name: &str, kind: MetricKind, help: &str) -> (text: String)
    ensures
        text@ == header_text(name@, kind, help@),
{
    let metric_type = match kind {
        MetricKind::Gauge => MetricType::Gauge,
        MetricKind::Counter => MetricType::Counter,
    };
    PrometheusMetric::new(name, metric_type, help).render_header()
}

/// Calls `PrometheusMetric::new` and `PrometheusMetric::render_sample` of
/// prometheus_exporter_base with a `u64` value. Trusted: the text is the
/// name, then, unless there is no label, the labels as `name="value"` joined
/// by commas between braces, then a space, the value as std displays a `u64`
/// (base ten, no leading zeros) and a line feed. No character of a label is
/// escaped, and neither the kind nor the help text shows in the line.
#[verifier::external_body]
fn outside_render_sample(
    name: &str,
    kind: MetricKind,
    help: &str,
    labels: &Vec<Label>,
    value: u64,
) -> (text: String)
    ensures
        text@ == sample_text(name@, label_views(labels@), value),
{
    let metric_type = match kind {
        MetricKind::Gauge => MetricType::Gauge,
        MetricKind::Counter => MetricType::Counter,
    };
    let pairs: Vec<(&str, &str)> =
        labels.iter().map(|label| (label.name.as_str(), label.value.as_str())).collect();
    PrometheusMetric::new(name, metric_type, help).render_sample(Some(&pairs), value)
}

impl Label {
    /// A label with the given name and value.
    pub fn new(name: &str, value: &str) -> (label: Label)
        ensures
            label@.name == name@,
            label@.value == value@,
    {
        Label { name: String::from_str(name), value: String::from_str(value) }
    }
}

impl MetricFamily {
    /// A family without samples.
    pub fn new(name: &str, kind: MetricKind, help: &str) -> (family: MetricFamily)
        ensures
            family@.name == name@,
            family@.kind == kind,
            family@.help == help@,
            family@.samples == Seq::<SampleView>::empty(),
    {
        MetricFamily {
            name: String::from_str(name),
            help: String::from_str(help),
            kind,
            samples: Vec::new(),
        }
    }

    /// The header lines of this family.
    pub fn render_header(&self) -> (text: String)
        ensures
            text@ == header_text(self@.name, self@.kind, self@.help),
    {
        outside_render_header(self.name.as_str(), self.kind, self.help.as_str())
    }

    /// The line that a sample with these labels and this value makes in this
    /// family. The family itself is left as it is.
    pub fn render_sample(&self, labels: &Vec<Label>, value: u64) -> (text: String)
        ensures
            text@ == sample_text(self@.name, label_views(labels@), value),
    {
        outside_render_sample(self.name.as_str(), self.kind, self.help.as_str(), labels, value)
    }

    /// Adds a sample behind those that the family already holds.
    pub fn add_sample(&mut self, labels: Vec<Label>, value: u64)
        ensures
            final(self)@.name == old(self)@.name,
            final(self)@.help == old(self)@.help,
            final(self)@.kind == old(self)@.kind,
            final(self)@.samples == old(self)@.samples.push(
                SampleView { labels: label_views(labels@), value },
            ),
    {
        self.samples.push(Sample { labels, value });
    }

    /// The text of the family: the header once, then every sample's line in
    /// the order in which the samples were added.
    pub fn render(&self) -> (text: String)
        ensures
            text@ == family_text(self@),
    {
        let mut text = self.render_header();
        let mut i: usize = 0;
        while i < self.samples.len()
            invariant
                i <= self.samples.len(),
                text@ == header_text(self@.name, self@.kind, self@.help) + samples_text(
                    self@.name,
                    self@.samples.take(i as int),
                ),
            decreases self.samples.len() - i,
        {
            let sample = &self.samples[i];
            let line = self.render_sample(&sample.labels, sample.value);
            proof {
                let done = self@.samples.take(i + 1);
                assert(done.drop_last() == self@.samples.take(i as int));
                assert(done.last() == sample@);
            }
            text.append(line.as_str());
            i += 1;
        }
        proof {
            assert(self@.samples.take(i as int) == self@.samples);
        }
        text
    }
}

/// The text of several families, one after the other, in the given order.
pub fn render_families(families: &Vec<MetricFamily>) -> (text: String)
    ensures
        text@ == exposition_text(family_views(families@)),
{
    let mut text = String::new();
    let mut i: usize = 0;
    while i < families.len()
        invariant
            i <= families.len(),
            text@ == exposition_text(family_views(families@).take(i as int)),
        decreases families.len() - i,
    {
        let part = families[i].render();
        proof {
            let done = family_views(families@).take(i + 1);
            assert(done.drop_last() == family_views(families@).take(i as int));
            assert(done.last() == families[i as int]@);
        }
        text.append(part.as_str());
        i += 1;
    }
    proof {
        assert(family_views(families@).take(i as int) == family_views(families@));
    }
    text
}

} // verus!

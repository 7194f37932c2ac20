//! One scrape: from the readings of one instant to the response body.
//!
//! A scrape shows eight families in a fixed order: the two file families,
//! the four memory and swap gauges, and the two disk families. A target that
//! could not be inspected shows nowhere; a disk report that cannot be used
//! fails the scrape as a whole.

use crate::host::{
    all_usable, disk_reading_views, disk_sample_views, sample_disks, samples_of, DiskReading,
    DiskSample, DiskSampleView, HostSample, ScrapeError,
};
use crate::metric::{
    exposition_text, family_lines, family_text, family_views, is_header_line, label_views,
    lemma_exposition_text_concat, lemma_header_lines_once, render_families, single_line,
    single_line_family, single_line_labels, FamilyView, Label, LabelView, MetricFamily,
    MetricKind, SampleView,
};
use crate::target::{
    inspection_view, inspection_views, TargetSample, TargetSampleView, TargetUnavailable,
    TargetUnavailableView,
};
use vstd::prelude::*;

verus! {

/// The labels of a file sample: the file's path, then the host.
pub open spec fn file_labels(path: Seq<char>, host: Seq<char>) -> Seq<LabelView> {
    seq![
        LabelView { name: "filename"@, value: path },
        LabelView { name: "host"@, value: host },
    ]
}

/// The label of a memory or swap sample: the host.
pub open spec fn host_labels(host: Seq<char>) -> Seq<LabelView> {
    seq![LabelView { name: "host"@, value: host }]
}

/// The labels of a disk sample: device, host, file system, mount path and
/// kind, in this order.
pub open spec fn disk_labels(disk: DiskSampleView, host: Seq<char>) -> Seq<LabelView> {
    seq![
        LabelView { name: "device"@, value: disk.device_name },
        LabelView { name: "host"@, value: host },
        LabelView { name: "fstype"@, value: disk.filesystem_type },
        LabelView { name: "path"@, value: disk.mount_path },
        LabelView { name: "type"@, value: disk.disk_kind.label() },
    ]
}

/// The targets that could be inspected, in the order of the inspections.
pub open spec fn readable(
    inspections: Seq<Result<TargetSampleView, TargetUnavailableView>>,
) -> Seq<TargetSampleView>
    decreases inspections.len(),
{
    if inspections.len() == 0 {
        Seq::empty()
    } else {
        let before = readable(inspections.drop_last());
        match inspections.last() {
            Ok(sample) => before.push(sample),
            Err(_) => before,
        }
    }
}

/// The sample that a readable target adds to the family of modification
/// times.
pub open spec fn modified_sample(target: TargetSampleView, host: Seq<char>) -> SampleView {
    SampleView {
        labels: file_labels(target.path, host),
        value: target.last_modified_unix_seconds,
    }
}

/// The sample that a readable target adds to the family of file sizes.
pub open spec fn size_sample(target: TargetSampleView, host: Seq<char>) -> SampleView {
    SampleView { labels: file_labels(target.path, host), value: target.size_bytes }
}

/// The family of modification times: one sample for each readable target.
pub open spec fn modified_family(
    host: Seq<char>,
    inspections: Seq<Result<TargetSampleView, TargetUnavailableView>>,
) -> FamilyView {
    FamilyView {
        name: "filewatcher_file_modified"@,
        help: "The timestamp when the file was last modified"@,
        kind: MetricKind::Gauge,
        samples: readable(inspections).map_values(
            |target: TargetSampleView| modified_sample(target, host),
        ),
    }
}

/// The family of file sizes: one sample for each readable target.
pub open spec fn size_family(
    host: Seq<char>,
    inspections: Seq<Result<TargetSampleView, TargetUnavailableView>>,
) -> FamilyView {
    FamilyView {
        name: "filewatcher_file_size"@,
        help: "The size of the file in bytes"@,
        kind: MetricKind::Gauge,
        samples: readable(inspections).map_values(
            |target: TargetSampleView| size_sample(target, host),
        ),
    }
}

/// A gauge with a single sample, labelled with the host.
pub open spec fn host_gauge(name: Seq<char>, help: Seq<char>, host: Seq<char>, value: u64) -> FamilyView {
    FamilyView {
        name,
        help,
        kind: MetricKind::Gauge,
        samples: seq![SampleView { labels: host_labels(host), value }],
    }
}

/// The four memory and swap gauges: swap total, memory total, memory used,
/// swap used.
pub open spec fn memory_family_views(host: Seq<char>, memory: HostSample) -> Seq<FamilyView> {
    seq![
        host_gauge("mem_swap_total"@, "mem_swap_total collected metric"@, host, memory.mem_swap_total),
        host_gauge("mem_total"@, "mem_total collected metric"@, host, memory.mem_total),
        host_gauge("mem_used"@, "mem_used collected metric"@, host, memory.mem_used),
        host_gauge("mem_swap_used"@, "mem_swap_used collected metric"@, host, memory.mem_swap_used),
    ]
}

/// The sample that a disk adds to the family of free space.
pub open spec fn disk_free_sample(disk: DiskSampleView, host: Seq<char>) -> SampleView {
    SampleView { labels: disk_labels(disk, host), value: disk.available_bytes }
}

/// The sample that a disk adds to the family of total space.
pub open spec fn disk_total_sample(disk: DiskSampleView, host: Seq<char>) -> SampleView {
    SampleView { labels: disk_labels(disk, host), value: disk.total_bytes }
}

/// The family of free space: one sample for each disk.
pub open spec fn disk_free_family(host: Seq<char>, disks: Seq<DiskSampleView>) -> FamilyView {
    FamilyView {
        name: "disk_free"@,
        help: "disk_free collected metric"@,
        kind: MetricKind::Gauge,
        samples: disks.map_values(|disk: DiskSampleView| disk_free_sample(disk, host)),
    }
}

/// The family of total space: one sample for each disk.
pub open spec fn disk_total_family(host: Seq<char>, disks: Seq<DiskSampleView>) -> FamilyView {
    FamilyView {
        name: "disk_total"@,
        help: "disk_total collected metric"@,
        kind: MetricKind::Gauge,
        samples: disks.map_values(|disk: DiskSampleView| disk_total_sample(disk, host)),
    }
}

/// The families of one scrape, in the order in which they are shown.
pub open spec fn scrape_families(
    host: Seq<char>,
    inspections: Seq<Result<TargetSampleView, TargetUnavailableView>>,
    memory: HostSample,
    disks: Seq<DiskSampleView>,
) -> Seq<FamilyView> {
    seq![modified_family(host, inspections), size_family(host, inspections)]
        + memory_family_views(host, memory) + seq![
        disk_free_family(host, disks),
        disk_total_family(host, disks),
    ]
}

/// The response body of one scrape.
pub open spec fn scrape_text(
    host: Seq<char>,
    inspections: Seq<Result<TargetSampleView, TargetUnavailableView>>,
    memory: HostSample,
    disks: Seq<DiskSampleView>,
) -> Seq<char> {
    exposition_text(scrape_families(host, inspections, memory, disks))
}

/// The text of the two file families, which open the response body.
pub open spec fn file_text(
    host: Seq<char>,
    inspections: Seq<Result<TargetSampleView, TargetUnavailableView>>,
) -> Seq<char> {
    family_text(modified_family(host, inspections)) + family_text(size_family(host, inspections))
}

/// The text of the memory, swap and disk families, which close the response
/// body.
pub open spec fn host_text(host: Seq<char>, memory: HostSample, disks: Seq<DiskSampleView>) -> Seq<
    char,
> {
    exposition_text(
        memory_family_views(host, memory) + seq![
            disk_free_family(host, disks),
            disk_total_family(host, disks),
        ],
    )
}

/// When every target could be inspected, each file family holds exactly one
/// sample per target, in the order of the targets. The sample of a target
/// carries its path under `filename` and the host under `host`, and as its
/// value the reported modification time, or the reported size.
pub proof fn lemma_one_sample_per_readable_target(
    host: Seq<char>,
    inspections: Seq<Result<TargetSampleView, TargetUnavailableView>>,
)
    requires
        forall|i: int| 0 <= i < inspections.len() ==> (#[trigger] inspections[i]) is Ok,
    ensures
        modified_family(host, inspections).samples.len() == inspections.len(),
        size_family(host, inspections).samples.len() == inspections.len(),
        forall|i: int|
            0 <= i < inspections.len() ==> {
                let target = (#[trigger] inspections[i])->Ok_0;
                &&& modified_family(host, inspections).samples[i] == SampleView {
                    labels: seq![
                        LabelView { name: "filename"@, value: target.path },
                        LabelView { name: "host"@, value: host },
                    ],
                    value: target.last_modified_unix_seconds,
                }
                &&& size_family(host, inspections).samples[i] == SampleView {
                    labels: seq![
                        LabelView { name: "filename"@, value: target.path },
                        LabelView { name: "host"@, value: host },
                    ],
                    value: target.size_bytes,
                }
            },
{
    lemma_readable_of_successes(inspections);
}

/// A list of inspections that all succeeded has every target readable.
proof fn lemma_readable_of_successes(
    inspections: Seq<Result<TargetSampleView, TargetUnavailableView>>,
)
    requires
        forall|i: int| 0 <= i < inspections.len() ==> (#[trigger] inspections[i]) is Ok,
    ensures
        readable(inspections).len() == inspections.len(),
        forall|i: int|
            0 <= i < inspections.len() ==> readable(inspections)[i] == (
            #[trigger] inspections[i])->Ok_0,
    decreases inspections.len(),
{
    if inspections.len() > 0 {
        let before = inspections.drop_last();
        assert forall|i: int| 0 <= i < before.len() implies (#[trigger] before[i]) is Ok by {
            assert(before[i] == inspections[i]);
        }
        lemma_readable_of_successes(before);
        assert(inspections.last() == inspections[inspections.len() - 1]);
        assert forall|i: int| 0 <= i < inspections.len() implies readable(inspections)[i] == (
        #[trigger] inspections[i])->Ok_0 by {
            if i < before.len() {
                assert(before[i] == inspections[i]);
            }
        }
    }
}

/// Taking the failed inspections out of a list leaves its readable targets
/// as they are, and every inspection either succeeded or failed.
proof fn lemma_readable_of_filtered(
    inspections: Seq<Result<TargetSampleView, TargetUnavailableView>>,
)
    ensures
        ({
            let succeeded = inspections.filter(
                |r: Result<TargetSampleView, TargetUnavailableView>| r is Ok,
            );
            let failed = inspections.filter(
                |r: Result<TargetSampleView, TargetUnavailableView>| r is Err,
            );
            &&& succeeded.len() + failed.len() == inspections.len()
            &&& readable(inspections).len() == succeeded.len()
            &&& readable(succeeded) == readable(inspections)
        }),
    decreases inspections.len(),
{
    reveal(Seq::filter);
    let is_ok = |r: Result<TargetSampleView, TargetUnavailableView>| r is Ok;
    if inspections.len() > 0 {
        lemma_readable_of_filtered(inspections.drop_last());
        if inspections.last() is Ok {
            assert(inspections.filter(is_ok).drop_last() == inspections.drop_last().filter(is_ok));
        }
    }
}

/// Each file family holds exactly as many samples as there are targets that
/// could be inspected. A target that could not be inspected leaves no trace:
/// with the failed inspections taken out of the list, both families are the
/// same.
pub proof fn lemma_failed_targets_add_nothing(
    host: Seq<char>,
    inspections: Seq<Result<TargetSampleView, TargetUnavailableView>>,
)
    ensures
        ({
            let succeeded = inspections.filter(
                |r: Result<TargetSampleView, TargetUnavailableView>| r is Ok,
            );
            let failed = inspections.filter(
                |r: Result<TargetSampleView, TargetUnavailableView>| r is Err,
            );
            &&& succeeded.len() + failed.len() == inspections.len()
            &&& modified_family(host, inspections).samples.len() == succeeded.len()
            &&& size_family(host, inspections).samples.len() == succeeded.len()
            &&& modified_family(host, succeeded) == modified_family(host, inspections)
            &&& size_family(host, succeeded) == size_family(host, inspections)
        }),
{
    lemma_readable_of_filtered(inspections);
}

/// The response body is the text of the file families followed by the text
/// of the host's families.
pub proof fn lemma_scrape_text_parts(
    host: Seq<char>,
    inspections: Seq<Result<TargetSampleView, TargetUnavailableView>>,
    memory: HostSample,
    disks: Seq<DiskSampleView>,
)
    ensures
        scrape_text(host, inspections, memory, disks) == file_text(host, inspections) + host_text(
            host,
            memory,
            disks,
        ),
{
    let files = seq![modified_family(host, inspections), size_family(host, inspections)];
    let others = memory_family_views(host, memory) + seq![
        disk_free_family(host, disks),
        disk_total_family(host, disks),
    ];
    assert(scrape_families(host, inspections, memory, disks) == files + others);
    lemma_exposition_text_concat(files, others);
    let opening = files.drop_last();
    assert(opening.last() == modified_family(host, inspections));
    assert(opening.drop_last() == Seq::<FamilyView>::empty());
    assert(exposition_text(opening.drop_last()) == Seq::<char>::empty());
    assert(exposition_text(opening) == Seq::<char>::empty() + family_text(opening.last()));
    assert(exposition_text(opening) == family_text(modified_family(host, inspections)));
    assert(files.last() == size_family(host, inspections));
}

/// Two scrapes for the same host whose inspections gave the same results
/// open with the same text, character for character, whatever the memory and
/// disk readings of either were: the lines of the file families depend on
/// the host's name and on the inspections alone.
pub proof fn lemma_file_lines_repeat(
    host: Seq<char>,
    inspections: Seq<Result<TargetSampleView, TargetUnavailableView>>,
    first_memory: HostSample,
    first_disks: Seq<DiskSampleView>,
    second_memory: HostSample,
    second_disks: Seq<DiskSampleView>,
)
    ensures
        ({
            let first = scrape_text(host, inspections, first_memory, first_disks);
            let second = scrape_text(host, inspections, second_memory, second_disks);
            let files = file_text(host, inspections);
            &&& files.len() <= first.len()
            &&& files.len() <= second.len()
            &&& first.take(files.len() as int) == files
            &&& second.take(files.len() as int) == files
        }),
{
    lemma_scrape_text_parts(host, inspections, first_memory, first_disks);
    lemma_scrape_text_parts(host, inspections, second_memory, second_disks);
}

/// Whether every text that a scrape shows in a label stays within one line:
/// the host's name, the path of each readable target, and the device name,
/// mount path and file system of each disk.
pub open spec fn single_line_readings(
    host: Seq<char>,
    inspections: Seq<Result<TargetSampleView, TargetUnavailableView>>,
    disks: Seq<DiskSampleView>,
) -> bool {
    &&& single_line(host)
    &&& forall|i: int|
        0 <= i < inspections.len() ==> ((#[trigger] inspections[i]) matches Ok(target)
            ==> single_line(target.path))
    &&& forall|i: int|
        0 <= i < disks.len() ==> {
            &&& single_line((#[trigger] disks[i]).device_name)
            &&& single_line(disks[i].mount_path)
            &&& single_line(disks[i].filesystem_type)
        }
}

/// The readable targets have single-line paths when every successful
/// inspection has one.
proof fn lemma_readable_paths_single_line(
    inspections: Seq<Result<TargetSampleView, TargetUnavailableView>>,
)
    requires
        forall|i: int|
            0 <= i < inspections.len() ==> ((#[trigger] inspections[i]) matches Ok(target)
                ==> single_line(target.path)),
    ensures
        forall|j: int|
            0 <= j < readable(inspections).len() ==> single_line(
                (#[trigger] readable(inspections)[j]).path,
            ),
    decreases inspections.len(),
{
    if inspections.len() > 0 {
        let before = inspections.drop_last();
        assert forall|i: int| 0 <= i < before.len() implies ((#[trigger] before[i]) matches Ok(
            target,
        ) ==> single_line(target.path)) by {
            assert(before[i] == inspections[i]);
        }
        lemma_readable_paths_single_line(before);
        assert(inspections.last() == inspections[inspections.len() - 1]);
        assert forall|j: int| 0 <= j < readable(inspections).len() implies single_line(
            (#[trigger] readable(inspections)[j]).path,
        ) by {
            if j < readable(before).len() {
                assert(readable(inspections)[j] == readable(before)[j]);
            }
        }
    }
}

/// The two file families stay within their lines when the host's name and the
/// paths do.
proof fn lemma_file_families_single_line(
    host: Seq<char>,
    inspections: Seq<Result<TargetSampleView, TargetUnavailableView>>,
)
    requires
        single_line(host),
        forall|i: int|
            0 <= i < inspections.len() ==> ((#[trigger] inspections[i]) matches Ok(target)
                ==> single_line(target.path)),
    ensures
        single_line_family(modified_family(host, inspections)),
        single_line_family(size_family(host, inspections)),
        !is_header_line(modified_family(host, inspections).name),
        !is_header_line(size_family(host, inspections).name),
{
    reveal_strlit("filewatcher_file_modified");
    reveal_strlit("The timestamp when the file was last modified");
    reveal_strlit("filewatcher_file_size");
    reveal_strlit("The size of the file in bytes");
    reveal_strlit("filename");
    reveal_strlit("host");
    lemma_readable_paths_single_line(inspections);
    let modified = modified_family(host, inspections);
    let size = size_family(host, inspections);
    assert forall|i: int| 0 <= i < modified.samples.len() implies single_line_labels(
        (#[trigger] modified.samples[i]).labels,
    ) by {
        assert(modified.samples[i].labels == file_labels(readable(inspections)[i].path, host));
    }
    assert forall|i: int| 0 <= i < size.samples.len() implies single_line_labels(
        (#[trigger] size.samples[i]).labels,
    ) by {
        assert(size.samples[i].labels == file_labels(readable(inspections)[i].path, host));
    }
}

/// The four memory and swap gauges stay within their lines when the host's
/// name does.
proof fn lemma_memory_families_single_line(host: Seq<char>, memory: HostSample)
    requires
        single_line(host),
    ensures
        forall|k: int|
            0 <= k < 4 ==> {
                &&& single_line_family(#[trigger] memory_family_views(host, memory)[k])
                &&& !is_header_line(memory_family_views(host, memory)[k].name)
            },
{
    reveal_strlit("mem_swap_total");
    reveal_strlit("mem_swap_total collected metric");
    reveal_strlit("mem_total");
    reveal_strlit("mem_total collected metric");
    reveal_strlit("mem_used");
    reveal_strlit("mem_used collected metric");
    reveal_strlit("mem_swap_used");
    reveal_strlit("mem_swap_used collected metric");
    reveal_strlit("host");
    let families = memory_family_views(host, memory);
    assert forall|k: int| 0 <= k < 4 implies single_line_family(#[trigger] families[k])
        && !is_header_line(families[k].name) by {
        let family = families[k];
        assert forall|i: int| 0 <= i < family.samples.len() implies single_line_labels(
            (#[trigger] family.samples[i]).labels,
        ) by {
            assert(family.samples[i].labels == host_labels(host));
        }
    }
}

/// The two disk families stay within their lines when the host's name and the
/// disks' texts do.
proof fn lemma_disk_families_single_line(host: Seq<char>, disks: Seq<DiskSampleView>)
    requires
        single_line(host),
        forall|i: int|
            0 <= i < disks.len() ==> {
                &&& single_line((#[trigger] disks[i]).device_name)
                &&& single_line(disks[i].mount_path)
                &&& single_line(disks[i].filesystem_type)
            },
    ensures
        single_line_family(disk_free_family(host, disks)),
        single_line_family(disk_total_family(host, disks)),
        !is_header_line(disk_free_family(host, disks).name),
        !is_header_line(disk_total_family(host, disks).name),
{
    reveal_strlit("disk_free");
    reveal_strlit("disk_free collected metric");
    reveal_strlit("disk_total");
    reveal_strlit("disk_total collected metric");
    reveal_strlit("device");
    reveal_strlit("host");
    reveal_strlit("fstype");
    reveal_strlit("path");
    reveal_strlit("type");
    reveal_strlit("HDD");
    reveal_strlit("SSD");
    reveal_strlit("Unknown");
    let free = disk_free_family(host, disks);
    let total = disk_total_family(host, disks);
    assert forall|i: int| 0 <= i < disks.len() implies single_line_labels(
        #[trigger] disk_labels(disks[i], host),
    ) by {
        assert(single_line(disks[i].device_name));
        assert(single_line(disks[i].disk_kind.label()));
    }
    assert forall|i: int| 0 <= i < free.samples.len() implies single_line_labels(
        (#[trigger] free.samples[i]).labels,
    ) by {
        assert(free.samples[i].labels == disk_labels(disks[i], host));
    }
    assert forall|i: int| 0 <= i < total.samples.len() implies single_line_labels(
        (#[trigger] total.samples[i]).labels,
    ) by {
        assert(total.samples[i].labels == disk_labels(disks[i], host));
    }
}

/// When the texts that a scrape shows in its labels stay within one line,
/// each of its eight families shows its header exactly once and before its
/// samples: of the lines of the family, the first two are header lines and
/// no other line is one.
pub proof fn lemma_scrape_headers_once(
    host: Seq<char>,
    inspections: Seq<Result<TargetSampleView, TargetUnavailableView>>,
    memory: HostSample,
    disks: Seq<DiskSampleView>,
)
    requires
        single_line_readings(host, inspections, disks),
    ensures
        scrape_families(host, inspections, memory, disks).len() == 8,
        forall|k: int, i: int|
            #![trigger family_lines(scrape_families(host, inspections, memory, disks)[k])[i]]
            0 <= k < 8 && 0 <= i < family_lines(
                scrape_families(host, inspections, memory, disks)[k],
            ).len() ==> {
                let line = family_lines(scrape_families(host, inspections, memory, disks)[k])[i];
                &&& single_line(line)
                &&& is_header_line(line) <==> i < 2
            },
{
    let families = scrape_families(host, inspections, memory, disks);
    lemma_file_families_single_line(host, inspections);
    lemma_memory_families_single_line(host, memory);
    lemma_disk_families_single_line(host, disks);
    assert forall|k: int| 0 <= k < 8 implies single_line_family(#[trigger] families[k])
        && !is_header_line(families[k].name) by {
        if 2 <= k < 6 {
            assert(families[k] == memory_family_views(host, memory)[k - 2]);
        }
    }
    assert forall|k: int, i: int|
        #![trigger family_lines(families[k])[i]]
        0 <= k < 8 && 0 <= i < family_lines(families[k]).len() implies {
        let line = family_lines(families[k])[i];
        &&& single_line(line)
        &&& is_header_line(line) <==> i < 2
    } by {
        lemma_header_lines_once(families[k]);
    }
}

/// Builds the labels of a file sample.
fn make_file_labels(path: &str, host: &str) -> (labels: Vec<Label>)
    ensures
        label_views(labels@) == file_labels(path@, host@),
{
    let mut labels: Vec<Label> = Vec::new();
    labels.push(Label::new("filename", path));
    labels.push(Label::new("host", host));
    labels
}

/// Builds the label of a memory or swap sample.
fn make_host_labels(host: &str) -> (labels: Vec<Label>)
    ensures
        label_views(labels@) == host_labels(host@),
{
    let mut labels: Vec<Label> = Vec::new();
    labels.push(Label::new("host", host));
    labels
}

/// Builds the labels of a disk sample.
fn make_disk_labels(disk: &DiskSample, host: &str) -> (labels: Vec<Label>)
    ensures
        label_views(labels@) == disk_labels(disk@, host@),
{
    let mut labels: Vec<Label> = Vec::new();
    labels.push(Label::new("device", disk.device_name.as_str()));
    labels.push(Label::new("host", host));
    labels.push(Label::new("fstype", disk.filesystem_type.as_str()));
    labels.push(Label::new("path", disk.mount_path.as_str()));
    labels.push(Label::new("type", disk.disk_kind.as_str()));
    labels
}

/// Builds a gauge with a single sample, labelled with the host.
fn make_host_gauge(name: &str, help: &str, host: &str, value: u64) -> (family: MetricFamily)
    ensures
        family@ == host_gauge(name@, help@, host@, value),
{
    let mut family = MetricFamily::new(name, MetricKind::Gauge, help);
    family.add_sample(make_host_labels(host), value);
    family
}

/// Gathers the two file families: for each target that could be inspected,
/// in order, one sample of its modification time and one of its size. A
/// target that could not be inspected adds nothing to either.
pub fn file_families(host: &str, inspections: &Vec<Result<TargetSample, TargetUnavailable>>) -> (families: (
    MetricFamily,
    MetricFamily,
))
    ensures
        families.0@ == modified_family(host@, inspection_views(inspections@)),
        families.1@ == size_family(host@, inspection_views(inspections@)),
{
    let mut modified = MetricFamily::new(
        "filewatcher_file_modified",
        MetricKind::Gauge,
        "The timestamp when the file was last modified",
    );
    let mut size = MetricFamily::new(
        "filewatcher_file_size",
        MetricKind::Gauge,
        "The size of the file in bytes",
    );
    let ghost views = inspection_views(inspections@);
    proof {
        assert(modified@.samples == modified_family(host@, views.take(0)).samples);
        assert(size@.samples == size_family(host@, views.take(0)).samples);
    }
    let mut i: usize = 0;
    while i < inspections.len()
        invariant
            i <= inspections.len(),
            views == inspection_views(inspections@),
            modified@ == modified_family(host@, views.take(i as int)),
            size@ == size_family(host@, views.take(i as int)),
        decreases inspections.len() - i,
    {
        proof {
            assert(views.take(i + 1).drop_last() == views.take(i as int));
            assert(views.take(i + 1).last() == inspection_view(inspections[i as int]));
        }
        match &inspections[i] {
            Ok(target) => {
                modified.add_sample(
                    make_file_labels(target.path.as_str(), host),
                    target.last_modified_unix_seconds,
                );
                size.add_sample(make_file_labels(target.path.as_str(), host), target.size_bytes);
                proof {
                    let before = readable(views.take(i as int));
                    assert(readable(views.take(i + 1)) == before.push(target@));
                    assert(modified@.samples == modified_family(
                        host@,
                        views.take(i + 1),
                    ).samples);
                    assert(size@.samples == size_family(host@, views.take(i + 1)).samples);
                }
            },
            Err(_) => {},
        }
        i += 1;
    }
    proof {
        assert(views.take(i as int) == views);
    }
    (modified, size)
}

/// Gathers the four memory and swap gauges, each with its one sample.
pub fn memory_families(host: &str, memory: &HostSample) -> (families: Vec<MetricFamily>)
    ensures
        family_views(families@) == memory_family_views(host@, *memory),
{
    let mut families: Vec<MetricFamily> = Vec::new();
    families.push(
        make_host_gauge(
            "mem_swap_total",
            "mem_swap_total collected metric",
            host,
            memory.mem_swap_total,
        ),
    );
    families.push(
        make_host_gauge("mem_total", "mem_total collected metric", host, memory.mem_total),
    );
    families.push(make_host_gauge("mem_used", "mem_used collected metric", host, memory.mem_used));
    families.push(
        make_host_gauge(
            "mem_swap_used",
            "mem_swap_used collected metric",
            host,
            memory.mem_swap_used,
        ),
    );
    families
}

/// Gathers the two disk families: for each disk, in order, one sample of its
/// free space and one of its total space.
pub fn disk_families(host: &str, disks: &Vec<DiskSample>) -> (families: (
    MetricFamily,
    MetricFamily,
))
    ensures
        families.0@ == disk_free_family(host@, disk_sample_views(disks@)),
        families.1@ == disk_total_family(host@, disk_sample_views(disks@)),
{
    let mut free = MetricFamily::new("disk_free", MetricKind::Gauge, "disk_free collected metric");
    let mut total = MetricFamily::new(
        "disk_total",
        MetricKind::Gauge,
        "disk_total collected metric",
    );
    let ghost views = disk_sample_views(disks@);
    proof {
        assert(free@.samples == disk_free_family(host@, views.take(0)).samples);
        assert(total@.samples == disk_total_family(host@, views.take(0)).samples);
    }
    let mut i: usize = 0;
    while i < disks.len()
        invariant
            i <= disks.len(),
            views == disk_sample_views(disks@),
            free@ == disk_free_family(host@, views.take(i as int)),
            total@ == disk_total_family(host@, views.take(i as int)),
        decreases disks.len() - i,
    {
        let disk = &disks[i];
        free.add_sample(make_disk_labels(disk, host), disk.available_bytes);
        total.add_sample(make_disk_labels(disk, host), disk.total_bytes);
        proof {
            assert(views.take(i + 1) == views.take(i as int).push(disk@));
            assert(free@.samples == disk_free_family(host@, views.take(i + 1)).samples);
            assert(total@.samples == disk_total_family(host@, views.take(i + 1)).samples);
        }
        i += 1;
    }
    proof {
        assert(views.take(i as int) == views);
    }
    (free, total)
}

/// Gathers the families of one scrape, in the order in which they are shown.
pub fn collect_families(
    host: &str,
    inspections: &Vec<Result<TargetSample, TargetUnavailable>>,
    memory: &HostSample,
    disks: &Vec<DiskSample>,
) -> (families: Vec<MetricFamily>)
    ensures
        family_views(families@) == scrape_families(
            host@,
            inspection_views(inspections@),
            *memory,
            disk_sample_views(disks@),
        ),
{
    let (modified, size) = file_families(host, inspections);
    let mut gauges = memory_families(host, memory);
    let (free, total) = disk_families(host, disks);
    let mut families: Vec<MetricFamily> = Vec::new();
    families.push(modified);
    families.push(size);
    let ghost files = family_views(families@);
    let ghost middle = family_views(gauges@);
    families.append(&mut gauges);
    proof {
        assert(family_views(families@) == files + middle);
    }
    families.push(free);
    families.push(total);
    families
}

/// Renders the response body for readings that are all in hand.
pub fn render_scrape(
    host: &str,
    inspections: &Vec<Result<TargetSample, TargetUnavailable>>,
    memory: &HostSample,
    disks: &Vec<DiskSample>,
) -> (body: String)
    ensures
        body@ == scrape_text(
            host@,
            inspection_views(inspections@),
            *memory,
            disk_sample_views(disks@),
        ),
{
    let families = collect_families(host, inspections, memory, disks);
    render_families(&families)
}

/// Answers one scrape from the readings of one instant.
///
/// The scrape succeeds exactly when every disk reading can be used. Its body
/// then shows every readable target, the memory figures and every disk. A
/// target that could not be inspected never fails the scrape.
pub fn handle_scrape(
    host: &str,
    inspections: &Vec<Result<TargetSample, TargetUnavailable>>,
    memory: &HostSample,
    disks: &Vec<DiskReading>,
) -> (response: Result<String, ScrapeError>)
    ensures
        response is Ok <==> all_usable(disk_reading_views(disks@)),
        response matches Ok(body) ==> body@ == scrape_text(
            host@,
            inspection_views(inspections@),
            *memory,
            samples_of(disk_reading_views(disks@)),
        ),
        response matches Err(e) ==> e == ScrapeError::HostSampleFailure,
{
    match sample_disks(disks) {
        Ok(samples) => Ok(render_scrape(host, inspections, memory, &samples)),
        Err(e) => Err(e),
    }
}

} // verus!

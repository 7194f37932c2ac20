//! Host readings: memory and swap figures, and the mounted disks.
//!
//! The operating system is queried elsewhere. This module holds what one
//! query reported, decides whether the report can be used, and classifies
//! each disk's medium.

use vstd::prelude::*;

verus! {

/// Memory and swap figures of the host, all taken at one instant.
#[derive(Clone, Copy, Debug, PartialEq, Eq, Structural)]
pub struct HostSample {
    pub mem_total: u64,
    pub mem_used: u64,
    pub mem_swap_total: u64,
    pub mem_swap_used: u64,
}

/// The medium of a disk as the operating system reports it: one of the two
/// media it knows by name, or a code for anything else.
#[derive(Clone, Copy, Debug, PartialEq, Eq, Structural)]
pub enum DiskType {
    Hdd,
    Ssd,
    Unknown(isize),
}

/// The kind of a disk as the exporter shows it.
#[derive(Clone, Copy, Debug, PartialEq, Eq, Structural)]
pub enum DiskKind {
    Hdd,
    Ssd,
    Unknown,
}

impl DiskKind {
    /// The kind under which a reported medium falls. Whatever is neither of
    /// the two named media is `Unknown`, whichever code came with it.
    pub open spec fn of(reported: DiskType) -> DiskKind {
        match reported {
            DiskType::Hdd => DiskKind::Hdd,
            DiskType::Ssd => DiskKind::Ssd,
            DiskType::Unknown(_) => DiskKind::Unknown,
        }
    }

    /// The word that stands for this kind in a `type` label.
    pub open spec fn label(self) -> Seq<char> {
        match self {
            DiskKind::Hdd => "HDD"@,
            DiskKind::Ssd => "SSD"@,
            DiskKind::Unknown => "Unknown"@,
        }
    }

    /// Classifies a reported medium.
    pub fn classify(reported: &DiskType) -> (kind: DiskKind)
        ensures
            kind == DiskKind::of(*reported),
    {
        match reported {
            DiskType::Hdd => DiskKind::Hdd,
            DiskType::Ssd => DiskKind::Ssd,
            DiskType::Unknown(_) => DiskKind::Unknown,
        }
    }

    /// The word that stands for this kind in a `type` label.
    pub fn as_str(&self) -> (text: &'static str)
        ensures
            text@ == self.label(),
    {
        match self {
            DiskKind::Hdd => "HDD",
            DiskKind::Ssd => "SSD",
            DiskKind::Unknown => "Unknown",
        }
    }
}

/// The word under which a reported medium is shown: `HDD`, `SSD` or
/// `Unknown`.
pub fn disk_type_to_str(dtype: &DiskType) -> (text: &'static str)
    ensures
        text@ == DiskKind::of(*dtype).label(),
{
    DiskKind::classify(dtype).as_str()
}

/// Classification is total and unambiguous: every reported medium is shown
/// under exactly one of the three words `HDD`, `SSD` and `Unknown`, and the
/// two named media are the only ones shown under their own names.
pub proof fn lemma_disk_classification_total(reported: DiskType)
    ensures
        ({
            let word = DiskKind::of(reported).label();
            &&& word == "HDD"@ || word == "SSD"@ || word == "Unknown"@
            &&& !(word == "HDD"@ && word == "SSD"@)
            &&& !(word == "HDD"@ && word == "Unknown"@)
            &&& !(word == "SSD"@ && word == "Unknown"@)
            &&& word == "HDD"@ <==> reported == DiskType::Hdd
            &&& word == "SSD"@ <==> reported == DiskType::Ssd
            &&& word == "Unknown"@ <==> reported is Unknown
        }),
{
    reveal_strlit("HDD");
    reveal_strlit("SSD");
    reveal_strlit("Unknown");
    assert("HDD"@[0] != "SSD"@[0]);
    assert("HDD"@.len() != "Unknown"@.len());
    assert("SSD"@.len() != "Unknown"@.len());
}

/// What the operating system reported of one mounted disk. A text that it
/// gave in a form that is not valid Unicode is absent.
#[derive(Clone, Debug, PartialEq, Eq)]
pub struct DiskReading {
    pub device_name: Option<String>,
    pub mount_path: Option<String>,
    pub filesystem_type: Option<String>,
    pub disk_type: DiskType,
    pub available_bytes: u64,
    pub total_bytes: u64,
}

/// What a [`DiskReading`] stands for.
pub struct DiskReadingView {
    pub device_name: Option<Seq<char>>,
    pub mount_path: Option<Seq<char>>,
    pub filesystem_type: Option<Seq<char>>,
    pub disk_type: DiskType,
    pub available_bytes: u64,
    pub total_bytes: u64,
}

/// The view of a text that may be absent.
pub open spec fn text_view(text: Option<String>) -> Option<Seq<char>> {
    match text {
        Some(t) => Some(t@),
        None => None,
    }
}

impl View for DiskReading {
    type V = DiskReadingView;

    open spec fn view(&self) -> DiskReadingView {
        DiskReadingView {
            device_name: text_view(self.device_name),
            mount_path: text_view(self.mount_path),
            filesystem_type: text_view(self.filesystem_type),
            disk_type: self.disk_type,
            available_bytes: self.available_bytes,
            total_bytes: self.total_bytes,
        }
    }
}

/// The views of a list of disk readings, in the same order.
pub open spec fn disk_reading_views(readings: Seq<DiskReading>) -> Seq<DiskReadingView> {
    readings.map_values(|reading: DiskReading| reading@)
}

/// One mounted disk, ready to be shown.
#[derive(Clone, Debug, PartialEq, Eq)]
pub struct DiskSample {
    pub device_name: String,
    pub mount_path: String,
    pub filesystem_type: String,
    pub disk_kind: DiskKind,
    pub available_bytes: u64,
    pub total_bytes: u64,
}

/// What a [`DiskSample`] stands for.
pub struct DiskSampleView {
    pub device_name: Seq<char>,
    pub mount_path: Seq<char>,
    pub filesystem_type: Seq<char>,
    pub disk_kind: DiskKind,
    pub available_bytes: u64,
    pub total_bytes: u64,
}

impl View for DiskSample {
    type V = DiskSampleView;

    open spec fn view(&self) -> DiskSampleView {
        DiskSampleView {
            device_name: self.device_name@,
            mount_path: self.mount_path@,
            filesystem_type: self.filesystem_type@,
            disk_kind: self.disk_kind,
            available_bytes: self.available_bytes,
            total_bytes: self.total_bytes,
        }
    }
}

/// The views of a list of disk samples, in the same order.
pub open spec fn disk_sample_views(samples: Seq<DiskSample>) -> Seq<DiskSampleView> {
    samples.map_values(|sample: DiskSample| sample@)
}

/// A reading can be used when all three of its texts are present.
pub open spec fn usable(reading: DiskReadingView) -> bool {
    &&& reading.device_name is Some
    &&& reading.mount_path is Some
    &&& reading.filesystem_type is Some
}

/// The sample that a usable reading makes: the same texts and figures, with
/// the medium classified.
pub open spec fn sample_of(reading: DiskReadingView) -> DiskSampleView
    recommends
        usable(reading),
{
    DiskSampleView {
        device_name: reading.device_name->0,
        mount_path: reading.mount_path->0,
        filesystem_type: reading.filesystem_type->0,
        disk_kind: DiskKind::of(reading.disk_type),
        available_bytes: reading.available_bytes,
        total_bytes: reading.total_bytes,
    }
}

/// Whether every reading of a list can be used.
pub open spec fn all_usable(readings: Seq<DiskReadingView>) -> bool {
    forall|i: int| 0 <= i < readings.len() ==> usable(#[trigger] readings[i])
}

/// The samples that a list of usable readings makes, in the same order.
pub open spec fn samples_of(readings: Seq<DiskReadingView>) -> Seq<DiskSampleView> {
    readings.map_values(|reading: DiskReadingView| sample_of(reading))
}

/// Why a scrape as a whole fails.
#[derive(Clone, Copy, Debug, PartialEq, Eq, Structural)]
pub enum ScrapeError {
    /// The operating system's report on the host could not be used.
    HostSampleFailure,
}

/// Turns one reading into a sample, if the reading can be used.
pub fn sample_disk(reading: &DiskReading) -> (sample: Option<DiskSample>)
    ensures
        sample is Some <==> usable(reading@),
        sample matches Some(s) ==> s@ == sample_of(reading@),
{
    match (&reading.device_name, &reading.mount_path, &reading.filesystem_type) {
        (Some(device_name), Some(mount_path), Some(filesystem_type)) => Some(
            DiskSample {
                device_name: device_name.clone(),
                mount_path: mount_path.clone(),
                filesystem_type: filesystem_type.clone(),
                disk_kind: DiskKind::classify(&reading.disk_type),
                available_bytes: reading.available_bytes,
                total_bytes: reading.total_bytes,
            },
        ),
        _ => None,
    }
}

/// Turns the readings of all disks into samples, in the same order. One
/// reading that cannot be used spoils the whole report: there is no sample
/// list with a disk left out.
pub fn sample_disks(readings: &Vec<DiskReading>) -> (samples: Result<Vec<DiskSample>, ScrapeError>)
    ensures
        samples is Ok <==> all_usable(disk_reading_views(readings@)),
        samples matches Ok(list) ==> disk_sample_views(list@) == samples_of(
            disk_reading_views(readings@),
        ),
        samples matches Err(e) ==> e == ScrapeError::HostSampleFailure,
{
    let mut list: Vec<DiskSample> = Vec::new();
    let mut i: usize = 0;
    while i < readings.len()
        invariant
            i <= readings.len(),
            all_usable(disk_reading_views(readings@).take(i as int)),
            disk_sample_views(list@) == samples_of(disk_reading_views(readings@).take(i as int)),
        decreases readings.len() - i,
    {
        let ghost before = disk_sample_views(list@);
        match sample_disk(&readings[i]) {
            Some(sample) => {
                list.push(sample);
            },
            None => {
                proof {
                    assert(!usable(disk_reading_views(readings@)[i as int]));
                }
                return Err(ScrapeError::HostSampleFailure);
            },
        }
        proof {
            let views = disk_reading_views(readings@);
            assert(views.take(i + 1) == views.take(i as int).push(views[i as int]));
            assert(disk_sample_views(list@) == before.push(sample_of(views[i as int])));
        }
        i += 1;
    }
    proof {
        let views = disk_reading_views(readings@);
        assert(views.take(i as int) == views);
    }
    Ok(list)
}

} // verus!

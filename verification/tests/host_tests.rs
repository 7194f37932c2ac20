use filewatcher_exporter::host::{
    disk_type_to_str, sample_disk, sample_disks, DiskKind, DiskReading, DiskSample, DiskType,
    ScrapeError,
};

fn reading(device: Option<&str>, mount: Option<&str>, fs: Option<&str>) -> DiskReading {
    DiskReading {
        device_name: device.map(|s| s.to_string()),
        mount_path: mount.map(|s| s.to_string()),
        filesystem_type: fs.map(|s| s.to_string()),
        disk_type: DiskType::Ssd,
        available_bytes: 10,
        total_bytes: 20,
    }
}

#[test]
fn named_media_keep_their_names() {
    assert_eq!(disk_type_to_str(&DiskType::Hdd), "HDD");
    assert_eq!(disk_type_to_str(&DiskType::Ssd), "SSD");
}

#[test]
fn every_other_medium_is_unknown() {
    for code in [-2isize, -1, 0, 1, 2, 7, isize::MAX, isize::MIN] {
        assert_eq!(disk_type_to_str(&DiskType::Unknown(code)), "Unknown");
        assert_eq!(DiskKind::classify(&DiskType::Unknown(code)), DiskKind::Unknown);
    }
}

#[test]
fn classify_named_media() {
    assert_eq!(DiskKind::classify(&DiskType::Hdd), DiskKind::Hdd);
    assert_eq!(DiskKind::classify(&DiskType::Ssd), DiskKind::Ssd);
}

#[test]
fn kind_words_are_three_and_differ() {
    let words = [DiskKind::Hdd.as_str(), DiskKind::Ssd.as_str(), DiskKind::Unknown.as_str()];
    assert_eq!(words, ["HDD", "SSD", "Unknown"]);
    assert_ne!(words[0], words[1]);
    assert_ne!(words[0], words[2]);
    assert_ne!(words[1], words[2]);
}

#[test]
fn usable_reading_becomes_a_sample() {
    let mut r = reading(Some("sda1"), Some("/"), Some("ext4"));
    r.disk_type = DiskType::Unknown(-1);
    assert_eq!(
        sample_disk(&r),
        Some(DiskSample {
            device_name: "sda1".to_string(),
            mount_path: "/".to_string(),
            filesystem_type: "ext4".to_string(),
            disk_kind: DiskKind::Unknown,
            available_bytes: 10,
            total_bytes: 20,
        })
    );
}

#[test]
fn reading_with_a_missing_text_is_no_sample() {
    assert_eq!(sample_disk(&reading(None, Some("/"), Some("ext4"))), None);
    assert_eq!(sample_disk(&reading(Some("sda1"), None, Some("ext4"))), None);
    assert_eq!(sample_disk(&reading(Some("sda1"), Some("/"), None)), None);
    assert_eq!(sample_disk(&reading(None, None, None)), None);
}

#[test]
fn reading_with_empty_texts_is_usable() {
    let sample = sample_disk(&reading(Some(""), Some(""), Some(""))).unwrap();
    assert_eq!(sample.device_name, "");
    assert_eq!(sample.disk_kind, DiskKind::Ssd);
}

#[test]
fn all_usable_readings_give_all_samples_in_order() {
    let readings = vec![
        reading(Some("sda1"), Some("/"), Some("ext4")),
        reading(Some("sdb1"), Some("/home"), Some("xfs")),
    ];
    let samples = sample_disks(&readings).unwrap();
    assert_eq!(samples.len(), 2);
    assert_eq!(samples[0].device_name, "sda1");
    assert_eq!(samples[1].device_name, "sdb1");
    assert_eq!(samples[1].mount_path, "/home");
    assert_eq!(samples[1].filesystem_type, "xfs");
}

#[test]
fn no_readings_no_samples() {
    assert_eq!(sample_disks(&Vec::new()), Ok(Vec::new()));
}

#[test]
fn one_unusable_reading_fails_the_whole_report() {
    let readings = vec![
        reading(Some("sda1"), Some("/"), Some("ext4")),
        reading(Some("sdb1"), None, Some("xfs")),
        reading(Some("sdc1"), Some("/data"), Some("xfs")),
    ];
    assert_eq!(sample_disks(&readings), Err(ScrapeError::HostSampleFailure));
}

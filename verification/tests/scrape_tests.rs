use filewatcher_exporter::host::{DiskKind, DiskReading, DiskSample, DiskType, HostSample, ScrapeError};
use filewatcher_exporter::scrape::{
    collect_families, disk_families, file_families, handle_scrape, memory_families, render_scrape,
};
use filewatcher_exporter::target::{TargetSample, TargetUnavailable};

type Inspection = Result<TargetSample, TargetUnavailable>;

fn readable(path: &str, modified: u64, size: u64) -> Inspection {
    Ok(TargetSample {
        path: path.to_string(),
        last_modified_unix_seconds: modified,
        size_bytes: size,
    })
}

fn missing(path: &str) -> Inspection {
    Err(TargetUnavailable { path: path.to_string(), cause: "No such file".to_string() })
}

fn memory() -> HostSample {
    HostSample { mem_total: 8000, mem_used: 3000, mem_swap_total: 2000, mem_swap_used: 100 }
}

fn disk_reading(device: &str, mount: &str, fs: &str, medium: DiskType) -> DiskReading {
    DiskReading {
        device_name: Some(device.to_string()),
        mount_path: Some(mount.to_string()),
        filesystem_type: Some(fs.to_string()),
        disk_type: medium,
        available_bytes: 40,
        total_bytes: 100,
    }
}

const MEMORY_TEXT: &str = "# HELP mem_swap_total mem_swap_total collected metric\n\
# TYPE mem_swap_total gauge\n\
mem_swap_total{host=\"box\"} 2000\n\
# HELP mem_total mem_total collected metric\n\
# TYPE mem_total gauge\n\
mem_total{host=\"box\"} 8000\n\
# HELP mem_used mem_used collected metric\n\
# TYPE mem_used gauge\n\
mem_used{host=\"box\"} 3000\n\
# HELP mem_swap_used mem_swap_used collected metric\n\
# TYPE mem_swap_used gauge\n\
mem_swap_used{host=\"box\"} 100\n";

const FILE_HEADERS_ONLY: &str = "# HELP filewatcher_file_modified The timestamp when the file was last modified\n\
# TYPE filewatcher_file_modified gauge\n\
# HELP filewatcher_file_size The size of the file in bytes\n\
# TYPE filewatcher_file_size gauge\n";

#[test]
fn whole_body_of_a_small_scrape() {
    let inspections = vec![readable("a.txt", 1_600_000_000, 500)];
    let disks = vec![disk_reading("sda1", "/", "ext4", DiskType::Ssd)];
    let body = handle_scrape("box", &inspections, &memory(), &disks).unwrap();
    let expected = format!(
        "{}{}{}{}{}",
        "# HELP filewatcher_file_modified The timestamp when the file was last modified\n\
# TYPE filewatcher_file_modified gauge\n\
filewatcher_file_modified{filename=\"a.txt\",host=\"box\"} 1600000000\n",
        "# HELP filewatcher_file_size The size of the file in bytes\n\
# TYPE filewatcher_file_size gauge\n\
filewatcher_file_size{filename=\"a.txt\",host=\"box\"} 500\n",
        MEMORY_TEXT,
        "# HELP disk_free disk_free collected metric\n\
# TYPE disk_free gauge\n\
disk_free{device=\"sda1\",host=\"box\",fstype=\"ext4\",path=\"/\",type=\"SSD\"} 40\n",
        "# HELP disk_total disk_total collected metric\n\
# TYPE disk_total gauge\n\
disk_total{device=\"sda1\",host=\"box\",fstype=\"ext4\",path=\"/\",type=\"SSD\"} 100\n",
    );
    assert_eq!(body, expected);
}

#[test]
fn one_readable_and_one_missing_target() {
    let t1 = 1_577_836_800;
    let inspections = vec![readable("a.txt", t1, 500), missing("missing.txt")];
    let body = handle_scrape("box", &inspections, &memory(), &Vec::new()).unwrap();
    let modified_line = format!("filewatcher_file_modified{{filename=\"a.txt\",host=\"box\"}} {}", t1);
    let size_line = "filewatcher_file_size{filename=\"a.txt\",host=\"box\"} 500";
    assert_eq!(body.lines().filter(|line| *line == modified_line).count(), 1);
    assert_eq!(body.lines().filter(|line| *line == size_line).count(), 1);
    assert_eq!(body.lines().filter(|line| line.starts_with("filewatcher_file_modified{")).count(), 1);
    assert_eq!(body.lines().filter(|line| line.starts_with("filewatcher_file_size{")).count(), 1);
    assert!(!body.contains("missing.txt"));
}

#[test]
fn empty_target_list_still_shows_the_host() {
    let disks = vec![disk_reading("sda1", "/", "ext4", DiskType::Hdd)];
    let body = handle_scrape("box", &Vec::new(), &memory(), &disks).unwrap();
    assert!(body.starts_with(FILE_HEADERS_ONLY));
    assert_eq!(body.lines().filter(|line| line.starts_with("filewatcher_file_")).count(), 0);
    assert!(body.contains("mem_total{host=\"box\"} 8000\n"));
    assert!(body
        .contains("disk_free{device=\"sda1\",host=\"box\",fstype=\"ext4\",path=\"/\",type=\"HDD\"} 40\n"));
}

#[test]
fn every_readable_target_has_one_sample_in_each_file_family() {
    let inspections = vec![
        readable("/var/log/a", 10, 1),
        readable("/var/log/b", 20, 2),
        readable("/var/log/c", 30, 3),
    ];
    let (modified, size) = file_families("h", &inspections);
    assert_eq!(modified.samples.len(), 3);
    assert_eq!(size.samples.len(), 3);
    for (i, inspection) in inspections.iter().enumerate() {
        let target = inspection.as_ref().unwrap();
        for (family, value) in
            [(&modified, target.last_modified_unix_seconds), (&size, target.size_bytes)]
        {
            let sample = &family.samples[i];
            assert_eq!(sample.value, value);
            assert_eq!(sample.labels.len(), 2);
            assert_eq!(sample.labels[0].name, "filename");
            assert_eq!(sample.labels[0].value, target.path);
            assert_eq!(sample.labels[1].name, "host");
            assert_eq!(sample.labels[1].value, "h");
        }
    }
    assert_eq!(modified.name, "filewatcher_file_modified");
    assert_eq!(size.name, "filewatcher_file_size");
}

#[test]
fn failed_targets_add_no_samples() {
    let inspections = vec![
        missing("m1"),
        readable("a", 1, 10),
        missing("m2"),
        missing("m3"),
        readable("b", 2, 20),
    ];
    let (modified, size) = file_families("h", &inspections);
    assert_eq!(modified.samples.len(), 2);
    assert_eq!(size.samples.len(), 2);
    let only_readable = vec![readable("a", 1, 10), readable("b", 2, 20)];
    assert_eq!(file_families("h", &only_readable), (modified, size));
}

#[test]
fn all_targets_missing_leaves_only_headers() {
    let inspections = vec![missing("m1"), missing("m2")];
    let body = handle_scrape("box", &inspections, &memory(), &Vec::new()).unwrap();
    assert!(body.starts_with(FILE_HEADERS_ONLY));
    assert!(body[FILE_HEADERS_ONLY.len()..].starts_with(MEMORY_TEXT));
}

#[test]
fn same_readings_same_body() {
    let inspections = vec![readable("a", 1, 10), missing("m"), readable("b", 2, 20)];
    let disks = vec![disk_reading("sda1", "/", "ext4", DiskType::Unknown(-1))];
    let first = handle_scrape("box", &inspections, &memory(), &disks).unwrap();
    let second = handle_scrape("box", &inspections, &memory(), &disks).unwrap();
    assert_eq!(first, second);
}

#[test]
fn file_lines_do_not_depend_on_host_readings() {
    let inspections = vec![readable("a", 1, 10), readable("b", 2, 20)];
    let first = handle_scrape("box", &inspections, &memory(), &Vec::new()).unwrap();
    let other_memory =
        HostSample { mem_total: 1, mem_used: 2, mem_swap_total: 3, mem_swap_used: 4 };
    let disks = vec![disk_reading("sda1", "/", "ext4", DiskType::Ssd)];
    let second = handle_scrape("box", &inspections, &other_memory, &disks).unwrap();
    assert_ne!(first, second);
    let file_lines = |body: &str| -> Vec<String> {
        body.lines().filter(|l| l.contains("filewatcher_")).map(|l| l.to_string()).collect()
    };
    assert_eq!(file_lines(&first), file_lines(&second));
    let end = first.find("# HELP mem_swap_total").unwrap();
    assert_eq!(first[..end], second[..end]);
}

#[test]
fn each_family_header_once_and_before_its_samples() {
    let inspections = vec![readable("a", 1, 10), readable("b", 2, 20)];
    let disks = vec![
        disk_reading("sda1", "/", "ext4", DiskType::Ssd),
        disk_reading("sdb1", "/home", "xfs", DiskType::Hdd),
    ];
    let body = handle_scrape("box", &inspections, &memory(), &disks).unwrap();
    let names = [
        "filewatcher_file_modified",
        "filewatcher_file_size",
        "mem_swap_total",
        "mem_total",
        "mem_used",
        "mem_swap_used",
        "disk_free",
        "disk_total",
    ];
    let lines: Vec<&str> = body.lines().collect();
    let mut last_header = 0;
    for name in names {
        let help = format!("# HELP {} ", name);
        let kind = format!("# TYPE {} gauge", name);
        let sample = format!("{}{{", name);
        let helps: Vec<usize> =
            (0..lines.len()).filter(|i| lines[*i].starts_with(&help)).collect();
        let kinds: Vec<usize> = (0..lines.len()).filter(|i| lines[*i] == kind).collect();
        assert_eq!(helps.len(), 1);
        assert_eq!(kinds.len(), 1);
        assert_eq!(kinds[0], helps[0] + 1);
        assert!(helps[0] >= last_header);
        last_header = helps[0];
        let samples: Vec<usize> =
            (0..lines.len()).filter(|i| lines[*i].starts_with(&sample)).collect();
        assert!(!samples.is_empty());
        for (k, at) in samples.iter().enumerate() {
            assert_eq!(*at, kinds[0] + 1 + k);
        }
    }
}

#[test]
fn families_come_in_the_fixed_order() {
    let disks = vec![DiskSample {
        device_name: "d".to_string(),
        mount_path: "/".to_string(),
        filesystem_type: "f".to_string(),
        disk_kind: DiskKind::Unknown,
        available_bytes: 1,
        total_bytes: 2,
    }];
    let families = collect_families("h", &vec![readable("a", 1, 2)], &memory(), &disks);
    let names: Vec<&str> = families.iter().map(|f| f.name.as_str()).collect();
    assert_eq!(
        names,
        [
            "filewatcher_file_modified",
            "filewatcher_file_size",
            "mem_swap_total",
            "mem_total",
            "mem_used",
            "mem_swap_used",
            "disk_free",
            "disk_total"
        ]
    );
    let text = render_scrape("h", &vec![readable("a", 1, 2)], &memory(), &disks);
    let mut expected = String::new();
    for family in &families {
        expected.push_str(&family.render());
    }
    assert_eq!(text, expected);
}

#[test]
fn memory_gauges_hold_the_four_figures() {
    let families = memory_families("box", &memory());
    let mut text = String::new();
    for family in &families {
        assert_eq!(family.samples.len(), 1);
        text.push_str(&family.render());
    }
    assert_eq!(text, MEMORY_TEXT);
}

#[test]
fn disk_families_show_every_disk_with_five_labels() {
    let disks = vec![
        DiskSample {
            device_name: "sda1".to_string(),
            mount_path: "/".to_string(),
            filesystem_type: "ext4".to_string(),
            disk_kind: DiskKind::Hdd,
            available_bytes: 5,
            total_bytes: 50,
        },
        DiskSample {
            device_name: "nvme0n1p1".to_string(),
            mount_path: "/data".to_string(),
            filesystem_type: "btrfs".to_string(),
            disk_kind: DiskKind::Unknown,
            available_bytes: 7,
            total_bytes: 70,
        },
    ];
    let (free, total) = disk_families("box", &disks);
    assert_eq!(
        free.render(),
        "# HELP disk_free disk_free collected metric\n# TYPE disk_free gauge\n\
disk_free{device=\"sda1\",host=\"box\",fstype=\"ext4\",path=\"/\",type=\"HDD\"} 5\n\
disk_free{device=\"nvme0n1p1\",host=\"box\",fstype=\"btrfs\",path=\"/data\",type=\"Unknown\"} 7\n"
    );
    assert_eq!(
        total.render(),
        "# HELP disk_total disk_total collected metric\n# TYPE disk_total gauge\n\
disk_total{device=\"sda1\",host=\"box\",fstype=\"ext4\",path=\"/\",type=\"HDD\"} 50\n\
disk_total{device=\"nvme0n1p1\",host=\"box\",fstype=\"btrfs\",path=\"/data\",type=\"Unknown\"} 70\n"
    );
}

#[test]
fn no_disks_leaves_disk_headers_only() {
    let body = handle_scrape("box", &Vec::new(), &memory(), &Vec::new()).unwrap();
    assert!(body.ends_with(
        "# HELP disk_free disk_free collected metric\n# TYPE disk_free gauge\n\
# HELP disk_total disk_total collected metric\n# TYPE disk_total gauge\n"
    ));
}

#[test]
fn unusable_disk_report_fails_the_scrape() {
    let mut broken = disk_reading("sdb1", "/home", "xfs", DiskType::Hdd);
    broken.filesystem_type = None;
    let disks = vec![disk_reading("sda1", "/", "ext4", DiskType::Ssd), broken];
    let inspections = vec![readable("a", 1, 10)];
    assert_eq!(
        handle_scrape("box", &inspections, &memory(), &disks),
        Err(ScrapeError::HostSampleFailure)
    );
}

#[test]
fn missing_targets_never_fail_the_scrape() {
    let inspections = vec![missing("a"), missing("b"), missing("c")];
    let disks = vec![disk_reading("sda1", "/", "ext4", DiskType::Ssd)];
    assert!(handle_scrape("box", &inspections, &memory(), &disks).is_ok());
}

#[test]
fn unknown_medium_is_shown_as_unknown() {
    let disks = vec![disk_reading("sda1", "/", "ext4", DiskType::Unknown(-1))];
    let body = handle_scrape("box", &Vec::new(), &memory(), &disks).unwrap();
    assert!(body.contains("type=\"Unknown\"} 40\n"));
    assert!(body.contains("type=\"Unknown\"} 100\n"));
}

use filewatcher_exporter::target::{
    inspection, parse_targets, FileStat, TargetSample, TargetUnavailable,
};

#[test]
fn two_targets() {
    assert_eq!(parse_targets("test.file;test2.file"), vec!["test.file", "test2.file"]);
}

#[test]
fn one_target_without_semicolon() {
    assert_eq!(parse_targets("/var/log/syslog"), vec!["/var/log/syslog"]);
}

#[test]
fn empty_list_names_one_empty_path() {
    assert_eq!(parse_targets(""), vec![""]);
}

#[test]
fn trailing_and_leading_semicolons_keep_empty_paths() {
    assert_eq!(parse_targets("a;"), vec!["a", ""]);
    assert_eq!(parse_targets(";a"), vec!["", "a"]);
    assert_eq!(parse_targets(";;"), vec!["", "", ""]);
    assert_eq!(parse_targets("a;;b"), vec!["a", "", "b"]);
}

#[test]
fn paths_with_wide_characters() {
    assert_eq!(parse_targets("données.txt;файл;日本語"), vec!["données.txt", "файл", "日本語"]);
}

#[test]
fn split_agrees_with_std_split() {
    for list in ["", ";", "a", "a;b;c", ";x;;y;", "no semicolon here", "é;ü;"] {
        let expected: Vec<String> = list.split(';').map(|s| s.to_string()).collect();
        assert_eq!(parse_targets(list), expected);
    }
}

#[test]
fn joined_pieces_give_the_list_back() {
    for list in ["", "a;b", ";;", "x;y;;z"] {
        let pieces = parse_targets(list);
        assert_eq!(pieces.join(";"), list);
        assert!(pieces.iter().all(|piece| !piece.contains(';')));
    }
}

#[test]
fn inspection_of_a_readable_file() {
    let outcome = inspection(
        "a.txt",
        Ok(FileStat { modified_unix_seconds: 1_600_000_000, size_bytes: 500 }),
    );
    assert_eq!(
        outcome,
        Ok(TargetSample {
            path: "a.txt".to_string(),
            last_modified_unix_seconds: 1_600_000_000,
            size_bytes: 500,
        })
    );
}

#[test]
fn inspection_of_a_missing_file_carries_path_and_cause() {
    let outcome = inspection("missing.txt", Err("No such file or directory".to_string()));
    assert_eq!(
        outcome,
        Err(TargetUnavailable {
            path: "missing.txt".to_string(),
            cause: "No such file or directory".to_string(),
        })
    );
}

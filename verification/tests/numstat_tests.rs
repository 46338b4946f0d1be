use gitlog::numstat::{parse_int, parse_numstat, parse_numstat_line};
use gitlog::records::FileInfo;
use gitlog::status::ChangeStatus;

fn known(paths: &[&str]) -> Vec<FileInfo> {
    paths
        .iter()
        .map(|p| FileInfo {
            path: (*p).to_string(),
            status: ChangeStatus::Modified,
            added_lines: None,
            removed_lines: None,
        })
        .collect()
}

#[test]
fn parse_int_plain_values() {
    assert_eq!(parse_int("0"), Some(0));
    assert_eq!(parse_int("3"), Some(3));
    assert_eq!(parse_int("407"), Some(407));
    assert_eq!(parse_int("4294967295"), Some(u32::MAX));
}

#[test]
fn parse_int_rejects_non_numerals() {
    assert_eq!(parse_int(""), None);
    assert_eq!(parse_int("-"), None);
    assert_eq!(parse_int("-1"), None);
    assert_eq!(parse_int("1x"), None);
    assert_eq!(parse_int(" 1"), None);
    assert_eq!(parse_int("4294967296"), None);
    assert_eq!(parse_int("99999999999999999999"), None);
}

#[test]
fn line_with_tabs() {
    let e = parse_numstat_line(b"3\t1\tsrc/main.go").expect("line should parse");
    assert_eq!(e.path, b"src/main.go".to_vec());
    assert_eq!(e.added, Some(3));
    assert_eq!(e.removed, Some(1));
}

#[test]
fn line_with_spaces() {
    let e = parse_numstat_line(b"12  0   lib/util.rs").expect("line should parse");
    assert_eq!(e.path, b"lib/util.rs".to_vec());
    assert_eq!(e.added, Some(12));
    assert_eq!(e.removed, Some(0));
}

#[test]
fn binary_marker_yields_absent_counts() {
    let e = parse_numstat_line(b"-\t-\tbinary.bin").expect("line should parse");
    assert_eq!(e.path, b"binary.bin".to_vec());
    assert_eq!(e.added, None);
    assert_eq!(e.removed, None);
}

#[test]
fn path_may_contain_blanks() {
    let e = parse_numstat_line(b"3\t1\ta name with spaces.txt").expect("line should parse");
    assert_eq!(e.path, b"a name with spaces.txt".to_vec());
    assert_eq!(e.added, Some(3));
    assert_eq!(e.removed, Some(1));
}

#[test]
fn malformed_lines_are_skipped() {
    assert!(parse_numstat_line(b"").is_none());
    assert!(parse_numstat_line(b"no numbers here").is_none());
    assert!(parse_numstat_line(b"3").is_none());
    assert!(parse_numstat_line(b"3 1").is_none());
    assert!(parse_numstat_line(b"3 1 ").is_none());
    assert!(parse_numstat_line(b"3-1 path").is_none());
    assert!(parse_numstat_line(b" 3 1 path").is_none());
    // the binary placeholder must fill both fields
    assert!(parse_numstat_line(b"3\t-\tmixed.txt").is_none());
    assert!(parse_numstat_line(b"-\t3\tmixed.txt").is_none());
    // a count too large for 32 bits is not a numeral
    assert!(parse_numstat_line(b"4294967296 1 big.txt").is_none());
}

#[test]
fn block_filtered_by_known_paths() {
    let statuses = known(&["a.txt", "b.txt"]);
    let text = b"3\t1\ta.txt\n5\t0\tunknown.txt\n-\t-\tb.txt\n";
    let entries = parse_numstat(text, &statuses);
    assert_eq!(entries.len(), 2);
    assert_eq!(entries[0].path, b"a.txt".to_vec());
    assert_eq!(entries[0].added, Some(3));
    assert_eq!(entries[0].removed, Some(1));
    assert_eq!(entries[1].path, b"b.txt".to_vec());
    assert_eq!(entries[1].added, None);
    assert_eq!(entries[1].removed, None);
}

#[test]
fn block_skips_garbage_lines() {
    let statuses = known(&["a.txt"]);
    let text = b"1 file changed\n3\t1\ta.txt\n\n";
    let entries = parse_numstat(text, &statuses);
    assert_eq!(entries.len(), 1);
    assert_eq!(entries[0].path, b"a.txt".to_vec());
    assert_eq!(entries[0].added, Some(3));
    assert_eq!(entries[0].removed, Some(1));
}

#[test]
fn empty_block_yields_nothing() {
    let statuses = known(&["a.txt"]);
    let entries = parse_numstat(b"", &statuses);
    assert!(entries.is_empty());
}

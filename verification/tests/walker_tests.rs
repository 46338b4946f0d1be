use gitlog::gittime::convert_git_time;
use gitlog::records::{CommitInput, DeltaInfo};
use gitlog::status::ChangeStatus;
use gitlog::walker::walk_history;

fn plain_commit(id: &str, seconds: i64) -> CommitInput {
    CommitInput {
        id: id.to_string(),
        summary: format!("commit {}", id),
        author_name: Some("Ada".to_string()),
        author_email: Some("ada@example.com".to_string()),
        time_seconds: seconds,
        time_offset_minutes: 0,
        parent_count: 0,
        deltas: Vec::new(),
        numstat: Vec::new(),
    }
}

#[test]
fn time_normalizer_shifts_by_minute_offset() {
    assert_eq!(convert_git_time(1000, 2), 1120);
    assert_eq!(convert_git_time(1000, -2), 880);
    assert_eq!(convert_git_time(0, 0), 0);
    assert_eq!(convert_git_time(1_600_000_000, 120), 1_600_007_200);
}

#[test]
fn one_record_per_commit() {
    let commits = vec![plain_commit("c1", 10), plain_commit("c2", 20), plain_commit("c3", 30)];
    let records = walk_history(&commits);
    assert_eq!(records.len(), 3);
    assert_eq!(records[0].id, "c1");
    assert_eq!(records[1].id, "c2");
    assert_eq!(records[2].id, "c3");
}

#[test]
fn records_keep_chronological_order() {
    let commits = vec![plain_commit("c1", 10), plain_commit("c2", 20), plain_commit("c3", 20)];
    let records = walk_history(&commits);
    for w in records.windows(2) {
        assert!(w[0].author_when <= w[1].author_when);
    }
}

#[test]
fn missing_author_metadata_defaults_to_none_sentinel() {
    let mut c = plain_commit("c1", 10);
    c.author_name = None;
    c.author_email = None;
    let records = walk_history(&vec![c]);
    assert_eq!(records[0].author_name, "<none>");
    assert_eq!(records[0].author_email, "<none>");
}

#[test]
fn present_author_metadata_is_kept() {
    let records = walk_history(&vec![plain_commit("c1", 10)]);
    assert_eq!(records[0].author_name, "Ada");
    assert_eq!(records[0].author_email, "ada@example.com");
}

#[test]
fn root_commit_has_no_files() {
    let mut c = plain_commit("c1", 10);
    c.parent_count = 0;
    // even if a reader filled in diff data, a root commit gets no files
    c.deltas = vec![DeltaInfo { path: "a.txt".to_string(), status: ChangeStatus::Added }];
    c.numstat = b"3\t1\ta.txt\n".to_vec();
    let records = walk_history(&vec![c]);
    assert!(records[0].files.is_empty());
}

#[test]
fn merge_commit_has_no_files() {
    let mut c = plain_commit("c1", 10);
    c.parent_count = 2;
    c.deltas = vec![DeltaInfo { path: "a.txt".to_string(), status: ChangeStatus::Modified }];
    c.numstat = b"3\t1\ta.txt\n".to_vec();
    let records = walk_history(&vec![c]);
    assert!(records[0].files.is_empty());
}

#[test]
fn single_parent_commit_gets_reconciled_files() {
    let mut c = plain_commit("c1", 10);
    c.parent_count = 1;
    c.deltas = vec![
        DeltaInfo { path: "a.txt".to_string(), status: ChangeStatus::Added },
        DeltaInfo { path: "b.bin".to_string(), status: ChangeStatus::Modified },
        DeltaInfo { path: "c.txt".to_string(), status: ChangeStatus::Deleted },
    ];
    c.numstat = b"5\t0\ta.txt\n-\t-\tb.bin\n".to_vec();
    let records = walk_history(&vec![c]);
    let files = &records[0].files;
    assert_eq!(files.len(), 3);
    assert_eq!(files[0].path, "a.txt");
    assert_eq!(files[0].status, ChangeStatus::Added);
    assert_eq!(files[0].added_lines, Some(5));
    assert_eq!(files[0].removed_lines, Some(0));
    assert_eq!(files[1].path, "b.bin");
    assert_eq!(files[1].added_lines, None);
    assert_eq!(files[1].removed_lines, None);
    assert_eq!(files[2].path, "c.txt");
    assert_eq!(files[2].added_lines, None);
    assert_eq!(files[2].removed_lines, None);
}

#[test]
fn counts_are_both_absent_or_both_present() {
    let mut c = plain_commit("c1", 10);
    c.parent_count = 1;
    c.deltas = vec![
        DeltaInfo { path: "a.txt".to_string(), status: ChangeStatus::Modified },
        DeltaInfo { path: "b.bin".to_string(), status: ChangeStatus::Modified },
    ];
    c.numstat = b"2\t7\ta.txt\n-\t-\tb.bin\n".to_vec();
    let records = walk_history(&vec![c]);
    for f in &records[0].files {
        assert_eq!(f.added_lines.is_some(), f.removed_lines.is_some());
    }
}

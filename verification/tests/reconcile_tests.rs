use gitlog::numstat::NumstatEntry;
use gitlog::records::{DeltaInfo, FileInfo};
use gitlog::reconcile::{build_statuses, reconcile};
use gitlog::status::ChangeStatus;

fn status_record(path: &str, status: ChangeStatus) -> FileInfo {
    FileInfo { path: path.to_string(), status, added_lines: None, removed_lines: None }
}

#[test]
fn reconcile_merges_counts_by_path() {
    let statuses = vec![
        status_record("a.txt", ChangeStatus::Added),
        status_record("b.txt", ChangeStatus::Modified),
    ];
    let entries = vec![NumstatEntry {
        path: b"a.txt".to_vec(),
        added: Some(5),
        removed: Some(0),
    }];
    let merged = reconcile(&statuses, &entries);
    assert_eq!(merged.len(), 2);
    assert_eq!(merged[0].path, "a.txt");
    assert_eq!(merged[0].status, ChangeStatus::Added);
    assert_eq!(merged[0].added_lines, Some(5));
    assert_eq!(merged[0].removed_lines, Some(0));
    assert_eq!(merged[1].path, "b.txt");
    assert_eq!(merged[1].status, ChangeStatus::Modified);
    assert_eq!(merged[1].added_lines, None);
    assert_eq!(merged[1].removed_lines, None);
}

#[test]
fn reconcile_ignores_entries_for_unknown_paths() {
    let statuses = vec![status_record("a.txt", ChangeStatus::Deleted)];
    let entries = vec![NumstatEntry {
        path: b"elsewhere.txt".to_vec(),
        added: Some(7),
        removed: Some(7),
    }];
    let merged = reconcile(&statuses, &entries);
    assert_eq!(merged.len(), 1);
    assert_eq!(merged[0].path, "a.txt");
    assert_eq!(merged[0].added_lines, None);
    assert_eq!(merged[0].removed_lines, None);
}

#[test]
fn reconcile_takes_the_last_entry_for_a_path() {
    let statuses = vec![status_record("a.txt", ChangeStatus::Modified)];
    let entries = vec![
        NumstatEntry { path: b"a.txt".to_vec(), added: Some(1), removed: Some(1) },
        NumstatEntry { path: b"a.txt".to_vec(), added: Some(9), removed: Some(2) },
    ];
    let merged = reconcile(&statuses, &entries);
    assert_eq!(merged.len(), 1);
    assert_eq!(merged[0].added_lines, Some(9));
    assert_eq!(merged[0].removed_lines, Some(2));
}

#[test]
fn build_statuses_keeps_one_record_per_path() {
    let deltas = vec![
        DeltaInfo { path: "a.txt".to_string(), status: ChangeStatus::Added },
        DeltaInfo { path: "b.txt".to_string(), status: ChangeStatus::Added },
        DeltaInfo { path: "a.txt".to_string(), status: ChangeStatus::Modified },
    ];
    let statuses = build_statuses(&deltas);
    assert_eq!(statuses.len(), 2);
    assert_eq!(statuses[0].path, "a.txt");
    assert_eq!(statuses[0].status, ChangeStatus::Modified);
    assert_eq!(statuses[1].path, "b.txt");
    assert_eq!(statuses[1].status, ChangeStatus::Added);
    assert_eq!(statuses[0].added_lines, None);
    assert_eq!(statuses[0].removed_lines, None);
}

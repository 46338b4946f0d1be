use gitlog::records::{FileInfo, GitLogEntry};
use gitlog::sink::{commit_rows, file_rows, join_tables};
use gitlog::status::{status_label, ChangeStatus};

fn entry(id: &str, files: Vec<FileInfo>) -> GitLogEntry {
    GitLogEntry {
        id: id.to_string(),
        summary: format!("summary of {}", id),
        author_name: "Ada".to_string(),
        author_email: "ada@example.com".to_string(),
        author_when: 42,
        files,
    }
}

fn file(path: &str, status: ChangeStatus, added: Option<u32>, removed: Option<u32>) -> FileInfo {
    FileInfo { path: path.to_string(), status, added_lines: added, removed_lines: removed }
}

#[test]
fn status_labels_are_the_closed_set() {
    assert_eq!(status_label(ChangeStatus::Added), "Added");
    assert_eq!(status_label(ChangeStatus::Unmodified), "Unmodified");
    assert_eq!(status_label(ChangeStatus::Deleted), "Deleted");
    assert_eq!(status_label(ChangeStatus::Modified), "Modified");
    assert_eq!(status_label(ChangeStatus::Copied), "Copied");
    assert_eq!(status_label(ChangeStatus::Ignored), "Ignored");
    assert_eq!(status_label(ChangeStatus::Untracked), "Untracked");
    assert_eq!(status_label(ChangeStatus::Typechange), "Typechange");
    assert_eq!(status_label(ChangeStatus::Unreadable), "Unreadable");
    assert_eq!(status_label(ChangeStatus::Conflicted), "Conflicted");
    assert_eq!(status_label(ChangeStatus::Renamed), "Renamed");
}

#[test]
fn projection_writes_one_commits_row_per_record() {
    let entries = vec![entry("c1", Vec::new()), entry("c2", Vec::new())];
    let rows = commit_rows(&entries);
    assert_eq!(rows.len(), 2);
    assert_eq!(rows[0].id, "c1");
    assert_eq!(rows[0].summary, "summary of c1");
    assert_eq!(rows[0].author_name, "Ada");
    assert_eq!(rows[0].author_email, "ada@example.com");
    assert_eq!(rows[0].author_when, 42);
    assert_eq!(rows[1].id, "c2");
}

#[test]
fn projection_keeps_absent_counts_absent() {
    let entries = vec![entry(
        "c1",
        vec![
            file("a.txt", ChangeStatus::Added, Some(3), Some(0)),
            file("b.bin", ChangeStatus::Modified, None, None),
        ],
    )];
    let rows = file_rows(&entries);
    assert_eq!(rows.len(), 2);
    assert_eq!(rows[0].id, "c1");
    assert_eq!(rows[0].name, "a.txt");
    assert_eq!(rows[0].status, "Added");
    assert_eq!(rows[0].added, Some(3));
    assert_eq!(rows[0].deleted, Some(0));
    assert_eq!(rows[1].name, "b.bin");
    assert_eq!(rows[1].added, None);
    assert_eq!(rows[1].deleted, None);
}

#[test]
fn round_trip_preserves_the_tuples() {
    let entries = vec![
        entry(
            "c1",
            vec![
                file("a.txt", ChangeStatus::Added, Some(5), Some(0)),
                file("b.txt", ChangeStatus::Modified, None, None),
            ],
        ),
        entry("c2", vec![file("a.txt", ChangeStatus::Deleted, Some(0), Some(9))]),
        entry("c3", Vec::new()),
    ];
    let cs = commit_rows(&entries);
    let fs = file_rows(&entries);
    let read_back = join_tables(&cs, &fs);

    let mut expected: Vec<(String, String, String, Option<u32>, Option<u32>)> = Vec::new();
    for e in &entries {
        for f in &e.files {
            expected.push((
                e.id.clone(),
                f.path.clone(),
                status_label(f.status).to_string(),
                f.added_lines,
                f.removed_lines,
            ));
        }
    }
    let got: Vec<(String, String, String, Option<u32>, Option<u32>)> = read_back
        .iter()
        .map(|r| (r.id.clone(), r.path.clone(), r.status.clone(), r.added, r.deleted))
        .collect();
    assert_eq!(got, expected);

    // the joined rows also carry the commit columns
    for r in &read_back {
        assert_eq!(r.author_name, "Ada");
        assert_eq!(r.summary, format!("summary of {}", r.id));
        assert_eq!(r.author_when, 42);
    }
}

#[test]
fn join_drops_file_rows_without_a_commit_row() {
    let entries = vec![entry("c1", vec![file("a.txt", ChangeStatus::Added, None, None)])];
    let cs = commit_rows(&vec![]);
    let fs = file_rows(&entries);
    let read_back = join_tables(&cs, &fs);
    assert!(read_back.is_empty());
}

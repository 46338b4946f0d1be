//! The data model: one record per commit, one record per file touched by a
//! single-parent commit, and the plain-value form in which a repository
//! reader hands a commit to the history walker.

use vstd::prelude::*;
use crate::status::ChangeStatus;

verus! {

/// One file touched by a commit.
///
/// `added_lines` and `removed_lines` are `None` when the numeric summary
/// could not be matched to this path; absence is a distinct, observable
/// state, never conflated with zero.
pub struct FileInfo {
    pub path: String,
    pub status: ChangeStatus,
    pub added_lines: Option<u32>,
    pub removed_lines: Option<u32>,
}

/// The mathematical value of a `FileInfo`.
pub struct FileInfoView {
    pub path: Seq<char>,
    pub status: ChangeStatus,
    pub added_lines: Option<u32>,
    pub removed_lines: Option<u32>,
}

impl View for FileInfo {
    type V = FileInfoView;

    open spec fn view(&self) -> FileInfoView {
        FileInfoView {
            path: self.path@,
            status: self.status,
            added_lines: self.added_lines,
            removed_lines: self.removed_lines,
        }
    }
}

/// The mathematical value of optional author metadata.
pub open spec fn opt_string_view(v: Option<String>) -> Option<Seq<char>> {
    match v {
        Option::Some(s) => Option::Some(s@),
        Option::None => Option::None,
    }
}

/// The mathematical values of a sequence of file records.
pub open spec fn files_view(s: Seq<FileInfo>) -> Seq<FileInfoView> {
    s.map_values(|f: FileInfo| f@)
}

/// One record per visited commit. `author_when` is the absolute UTC instant
/// of authorship, as Unix epoch seconds. `files` is empty for root commits
/// and for merge commits.
pub struct GitLogEntry {
    pub id: String,
    pub summary: String,
    pub author_name: String,
    pub author_email: String,
    pub author_when: i64,
    pub files: Vec<FileInfo>,
}

/// The mathematical value of a `GitLogEntry`.
pub struct GitLogEntryView {
    pub id: Seq<char>,
    pub summary: Seq<char>,
    pub author_name: Seq<char>,
    pub author_email: Seq<char>,
    pub author_when: i64,
    pub files: Seq<FileInfoView>,
}

impl View for GitLogEntry {
    type V = GitLogEntryView;

    open spec fn view(&self) -> GitLogEntryView {
        GitLogEntryView {
            id: self.id@,
            summary: self.summary@,
            author_name: self.author_name@,
            author_email: self.author_email@,
            author_when: self.author_when,
            files: self.files@.map_values(|f: FileInfo| f@),
        }
    }
}

/// One per-file change observation of a tree-to-tree diff, already
/// classified: the path at the post-change tree state and its status.
pub struct DeltaInfo {
    pub path: String,
    pub status: ChangeStatus,
}

/// The mathematical value of a `DeltaInfo`.
pub struct DeltaInfoView {
    pub path: Seq<char>,
    pub status: ChangeStatus,
}

impl View for DeltaInfo {
    type V = DeltaInfoView;

    open spec fn view(&self) -> DeltaInfoView {
        DeltaInfoView { path: self.path@, status: self.status }
    }
}

/// Everything the history walker reads of one commit, as plain values.
///
/// A repository reader fills one of these per commit: metadata, the parent
/// count, and — for commits with exactly one parent — the classified
/// tree-to-tree diff observations and the rendered numeric line-count
/// summary of that diff. For root and merge commits `deltas` and `numstat`
/// are ignored.
pub struct CommitInput {
    pub id: String,
    pub summary: String,
    pub author_name: Option<String>,
    pub author_email: Option<String>,
    pub time_seconds: i64,
    pub time_offset_minutes: i32,
    pub parent_count: usize,
    pub deltas: Vec<DeltaInfo>,
    pub numstat: Vec<u8>,
}

/// The mathematical value of a `CommitInput`.
pub struct CommitInputView {
    pub id: Seq<char>,
    pub summary: Seq<char>,
    pub author_name: Option<Seq<char>>,
    pub author_email: Option<Seq<char>>,
    pub time_seconds: i64,
    pub time_offset_minutes: i32,
    pub parent_count: usize,
    pub deltas: Seq<DeltaInfoView>,
    pub numstat: Seq<u8>,
}

impl View for CommitInput {
    type V = CommitInputView;

    open spec fn view(&self) -> CommitInputView {
        CommitInputView {
            id: self.id@,
            summary: self.summary@,
            author_name: opt_string_view(self.author_name),
            author_email: opt_string_view(self.author_email),
            time_seconds: self.time_seconds,
            time_offset_minutes: self.time_offset_minutes,
            parent_count: self.parent_count,
            deltas: self.deltas@.map_values(|d: DeltaInfo| d@),
            numstat: self.numstat@,
        }
    }
}

} // verus!

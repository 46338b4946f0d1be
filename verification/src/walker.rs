//! History walker: turns the commits a repository reader hands over, in
//! traversal order, into the ordered sequence of commit records.
//!
//! For each commit it applies the `"<none>"` defaulting rule to the author
//! metadata, normalizes the author timestamp, and branches on the parent
//! count: a commit with exactly one parent gets the reconciled per-file
//! records of its tree-to-tree diff; a root commit (no parent to diff
//! against) and a merge commit (ignored by convention for change
//! attribution) get no file records at all.

use vstd::prelude::*;
use vstd::utf8::encode_utf8;
use crate::gittime::{convert_git_time, normalized_when};
use crate::records::{
    CommitInput, CommitInputView, DeltaInfoView, FileInfo, FileInfoView, GitLogEntry,
    GitLogEntryView,
    files_view, opt_string_view,
};
use crate::numstat::{entries_view, lemma_lookup_counts_paired, lookup, numstat_lookup,
    parse_numstat, split_lines};
use crate::reconcile::{
    lemma_build_files_counts_absent,
    build_files, build_statuses, lemma_build_files_unique, merged_file, paths_unique, reconcile,
};

verus! {

/// The author-metadata defaulting rule: a missing name or address becomes
/// the literal sentinel `"<none>"`, never an empty string.
pub open spec fn defaulted(v: Option<Seq<char>>) -> Seq<char> {
    match v {
        Option::Some(s) => s,
        Option::None => "<none>"@,
    }
}

/// Applies the defaulting rule to one piece of author metadata.
fn default_author(v: &Option<String>) -> (out: String)
    ensures
        out@ == defaulted(opt_string_view(*v)),
{
    match v {
        Option::Some(s) => s.clone(),
        Option::None => "<none>".to_owned(),
    }
}

/// The reconciled per-file records of a single-parent commit: one record
/// per path the diff observes, its counts taken from the numeric summary
/// when the summary has an entry for that path.
pub open spec fn commit_files(deltas: Seq<DeltaInfoView>, numstat: Seq<u8>) -> Seq<FileInfoView> {
    let statuses = build_files(deltas);
    Seq::new(
        statuses.len(),
        |i: int|
            merged_file(
                statuses[i],
                numstat_lookup(numstat, statuses, encode_utf8(statuses[i].path)),
            ),
    )
}

/// The record the walker produces for one commit.
pub open spec fn entry_of(c: CommitInputView) -> GitLogEntryView {
    GitLogEntryView {
        id: c.id,
        summary: c.summary,
        author_name: defaulted(c.author_name),
        author_email: defaulted(c.author_email),
        author_when: normalized_when(c.time_seconds, c.time_offset_minutes) as i64,
        files: if c.parent_count == 1 {
            commit_files(c.deltas, c.numstat)
        } else {
            Seq::empty()
        },
    }
}

/// The commit's normalized author instant stays within the machine range.
pub open spec fn when_in_range(c: CommitInputView) -> bool {
    i64::MIN <= normalized_when(c.time_seconds, c.time_offset_minutes) <= i64::MAX
}

/// Walks the commits of a repository, in the order the reader hands them
/// over, and assembles one record per commit: never fewer, never more.
pub fn walk_history(commits: &Vec<CommitInput>) -> (out: Vec<GitLogEntry>)
    requires
        forall|i: int| 0 <= i < commits@.len() ==> when_in_range(#[trigger] commits@[i]@),
    ensures
        out@.len() == commits@.len(),
        forall|i: int| 0 <= i < out@.len() ==> #[trigger] out@[i]@ == entry_of(commits@[i]@),
        forall|i: int|
            0 <= i < out@.len() && (#[trigger] commits@[i]@).parent_count != 1
                ==> out@[i]@.files.len() == 0,
        forall|i: int|
            0 <= i < out@.len() && (#[trigger] commits@[i]@).author_email is None
                ==> out@[i]@.author_email == "<none>"@,
        forall|i: int|
            0 <= i < out@.len() && (#[trigger] commits@[i]@).author_name is None
                ==> out@[i]@.author_name == "<none>"@,
{
    let mut out: Vec<GitLogEntry> = Vec::new();
    let n = commits.len();
    let mut i: usize = 0;
    while i < n
        invariant
            i <= n == commits@.len(),
            out@.len() == i,
            forall|k: int| 0 <= k < n ==> when_in_range(#[trigger] commits@[k]@),
            forall|k: int| 0 <= k < i ==> #[trigger] out@[k]@ == entry_of(commits@[k]@),
        decreases n - i,
    {
        let c = &commits[i];
        let files: Vec<FileInfo> = if c.parent_count == 1 {
            let statuses = build_statuses(&c.deltas);
            let entries = parse_numstat(c.numstat.as_slice(), &statuses);
            let merged = reconcile(&statuses, &entries);
            proof {
                let ghost cf = commit_files(c@.deltas, c@.numstat);
                assert forall|j: int| 0 <= j < merged@.len() implies #[trigger] files_view(
                    merged@,
                )[j] == cf[j] by {
                    assert(lookup(
                        entries_view(entries@),
                        encode_utf8(files_view(statuses@)[j].path),
                    ) == numstat_lookup(
                        c@.numstat,
                        files_view(statuses@),
                        encode_utf8(files_view(statuses@)[j].path),
                    ));
                }
                assert(files_view(merged@) =~= cf);
            }
            merged
        } else {
            Vec::new()
        };
        let entry = GitLogEntry {
            id: c.id.clone(),
            summary: c.summary.clone(),
            author_name: default_author(&c.author_name),
            author_email: default_author(&c.author_email),
            author_when: convert_git_time(c.time_seconds, c.time_offset_minutes),
            files,
        };
        proof {
            if c@.parent_count != 1 {
                assert(entry@.files =~= Seq::<FileInfoView>::empty());
            }
            assert(entry@ == entry_of(commits@[i as int]@));
        }
        out.push(entry);
        i = i + 1;
    }
    out
}

/// A commit record's files are unique by path: the reconciled set is a
/// mapping keyed by path, whatever the diff observed.
pub proof fn lemma_files_unique_by_path(c: CommitInputView)
    ensures
        paths_unique(entry_of(c).files),
{
    if c.parent_count == 1 {
        lemma_build_files_unique(c.deltas);
        let statuses = build_files(c.deltas);
        let files = entry_of(c).files;
        assert forall|i: int, j: int| 0 <= i < j < files.len() implies (#[trigger] files[i]).path
            != (#[trigger] files[j]).path by {
            assert(files[i].path == statuses[i].path);
            assert(files[j].path == statuses[j].path);
        }
    }
}

/// A commit record's counts come in pairs: for every file of every record,
/// the added and removed counts are either both absent or both present —
/// and present counts are non-negative by type.
pub proof fn lemma_counts_paired(c: CommitInputView)
    ensures
        forall|j: int|
            0 <= j < entry_of(c).files.len() ==> ((#[trigger] entry_of(c).files[j]).added_lines
                is Some <==> entry_of(c).files[j].removed_lines is Some),
{
    if c.parent_count == 1 {
        let statuses = build_files(c.deltas);
        lemma_build_files_counts_absent(c.deltas);
        assert forall|j: int| 0 <= j < entry_of(c).files.len() implies ((#[trigger] entry_of(
            c,
        ).files[j]).added_lines is Some <==> entry_of(c).files[j].removed_lines is Some) by {
            lemma_lookup_counts_paired(
                split_lines(c.numstat),
                statuses,
                encode_utf8(statuses[j].path),
            );
        }
    }
}

/// Chronological ordering: when the commits are handed over with their
/// normalized author instants ascending — as a time-ascending traversal
/// does — the records' author instants ascend too.
pub proof fn lemma_chronological(commits: Seq<CommitInputView>, records: Seq<GitLogEntryView>)
    requires
        records.len() == commits.len(),
        forall|i: int| 0 <= i < commits.len() ==> when_in_range(#[trigger] commits[i]),
        forall|i: int| 0 <= i < commits.len() ==> #[trigger] records[i] == entry_of(commits[i]),
        forall|i: int|
            0 <= i && i + 1 < commits.len() ==> normalized_when(
                (#[trigger] commits[i]).time_seconds,
                commits[i].time_offset_minutes,
            ) <= normalized_when(commits[i + 1].time_seconds, commits[i + 1].time_offset_minutes),
    ensures
        forall|i: int|
            0 <= i && i + 1 < records.len() ==> (#[trigger] records[i]).author_when <= records[
                i + 1
            ].author_when,
{
    assert forall|i: int| 0 <= i && i + 1 < records.len() implies (#[trigger] records[
        i
    ]).author_when <= records[i + 1].author_when by {
        assert(records[i] == entry_of(commits[i]));
        assert(records[i + 1] == entry_of(commits[i + 1]));
    }
}

} // verus!

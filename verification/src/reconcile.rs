//! Commit diff reconciler: for one commit with exactly one parent, combines
//! the classified per-path change observations with the parsed numeric
//! summary into one authoritative per-file record set, joined by path.
//!
//! The two views of the same diff are produced independently and may list
//! files in different orders; the path is the only correct join key. A path
//! present only in the status listing keeps absent counts; a path present
//! only in the numeric summary is dropped.

use vstd::prelude::*;
use vstd::string::StringSliceAdditionalSpecFns;
use vstd::utf8::encode_utf8;
use crate::records::{DeltaInfo, DeltaInfoView, FileInfo, FileInfoView, files_view};
use crate::numstat::{NumstatEntry, NumstatEntryView, entries_view, lookup};

verus! {

/// The first index at or after `i` whose record is for path `p`, or the
/// length when no record is.
pub open spec fn find_path(s: Seq<FileInfoView>, p: Seq<char>, i: int) -> int
    decreases s.len() - i,
    when 0 <= i <= s.len()
{
    if i >= s.len() {
        i
    } else if s[i].path == p {
        i
    } else {
        find_path(s, p, i + 1)
    }
}

pub proof fn lemma_find_path(s: Seq<FileInfoView>, p: Seq<char>, i: int)
    requires
        0 <= i <= s.len(),
    ensures
        i <= find_path(s, p, i) <= s.len(),
        find_path(s, p, i) < s.len() ==> s[find_path(s, p, i)].path == p,
        forall|j: int| i <= j < find_path(s, p, i) ==> (#[trigger] s[j]).path != p,
    decreases s.len() - i,
{
    if i < s.len() && s[i].path != p {
        lemma_find_path(s, p, i + 1);
    }
}

/// No two records share a path.
pub open spec fn paths_unique(s: Seq<FileInfoView>) -> bool {
    forall|i: int, j: int| 0 <= i < j < s.len() ==> (#[trigger] s[i]).path != (#[trigger] s[j]).path
}

/// The initial record of one change observation: status set, counts absent.
pub open spec fn initial_file(d: DeltaInfoView) -> FileInfoView {
    FileInfoView { path: d.path, status: d.status, added_lines: None, removed_lines: None }
}

/// Insert-or-replace by path: a later record for an already-seen path
/// replaces the earlier one in place.
pub open spec fn upsert(s: Seq<FileInfoView>, f: FileInfoView) -> Seq<FileInfoView> {
    let j = find_path(s, f.path, 0);
    if j < s.len() {
        s.update(j, f)
    } else {
        s.push(f)
    }
}

/// The initial path → record mapping of a diff: one record per observed
/// path, in first-observation order, a later observation for the same path
/// replacing the earlier one.
pub open spec fn build_files(deltas: Seq<DeltaInfoView>) -> Seq<FileInfoView>
    decreases deltas.len(),
{
    if deltas.len() == 0 {
        Seq::empty()
    } else {
        upsert(build_files(deltas.drop_last()), initial_file(deltas.last()))
    }
}

proof fn lemma_upsert_unique(s: Seq<FileInfoView>, f: FileInfoView)
    requires
        paths_unique(s),
    ensures
        paths_unique(upsert(s, f)),
{
    lemma_find_path(s, f.path, 0);
}

/// The initial mapping is a mapping indeed: unique by path.
pub proof fn lemma_build_files_unique(deltas: Seq<DeltaInfoView>)
    ensures
        paths_unique(build_files(deltas)),
    decreases deltas.len(),
{
    if deltas.len() > 0 {
        lemma_build_files_unique(deltas.drop_last());
        lemma_upsert_unique(build_files(deltas.drop_last()), initial_file(deltas.last()));
    }
}

/// Every record of the initial mapping has both counts absent: the numeric
/// summary has not been consulted yet.
pub proof fn lemma_build_files_counts_absent(deltas: Seq<DeltaInfoView>)
    ensures
        forall|i: int|
            0 <= i < build_files(deltas).len() ==> (#[trigger] build_files(deltas)[i]).added_lines
                is None && build_files(deltas)[i].removed_lines is None,
    decreases deltas.len(),
{
    if deltas.len() > 0 {
        lemma_build_files_counts_absent(deltas.drop_last());
        lemma_find_path(build_files(deltas.drop_last()), initial_file(deltas.last()).path, 0);
    }
}

/// Inserts a record, replacing any earlier record for the same path.
fn upsert_exec(out: &mut Vec<FileInfo>, f: FileInfo)
    ensures
        files_view(final(out)@) == upsert(files_view(old(out)@), f@),
{
    let n = out.len();
    let mut j: usize = 0;
    while j < n
        invariant
            j <= n == out@.len(),
            out@ == old(out)@,
            forall|k: int| 0 <= k < j ==> (#[trigger] files_view(out@)[k]).path != f@.path,
        decreases n - j,
    {
        if out[j].path == f.path {
            proof {
                lemma_find_path(files_view(out@), f@.path, 0);
            }
            assert(files_view(out@)[j as int].path == f@.path);
            assert(find_path(files_view(out@), f@.path, 0) == j);
            let ghost prev = files_view(out@);
            out[j] = f;
            proof {
                assert(files_view(out@) =~= prev.update(j as int, f@));
            }
            return;
        }
        j = j + 1;
    }
    proof {
        lemma_find_path(files_view(out@), f@.path, 0);
    }
    assert(find_path(files_view(out@), f@.path, 0) == n);
    let ghost prev = files_view(out@);
    out.push(f);
    proof {
        assert(files_view(out@) =~= prev.push(f@));
    }
}

/// Builds the initial path → record mapping from the change observations of
/// one diff.
pub fn build_statuses(deltas: &Vec<DeltaInfo>) -> (out: Vec<FileInfo>)
    ensures
        files_view(out@) == build_files(deltas@.map_values(|d: DeltaInfo| d@)),
{
    let ghost dv = deltas@.map_values(|d: DeltaInfo| d@);
    let mut out: Vec<FileInfo> = Vec::new();
    let n = deltas.len();
    let mut j: usize = 0;
    assert(files_view(out@) =~= build_files(dv.subrange(0, 0)));
    while j < n
        invariant
            j <= n == deltas@.len(),
            dv == deltas@.map_values(|d: DeltaInfo| d@),
            files_view(out@) == build_files(dv.subrange(0, j as int)),
        decreases n - j,
    {
        assert(dv.subrange(0, j as int + 1).drop_last() =~= dv.subrange(0, j as int));
        assert(dv.subrange(0, j as int + 1).last() == dv[j as int]);
        let f = FileInfo {
            path: deltas[j].path.clone(),
            status: deltas[j].status,
            added_lines: None,
            removed_lines: None,
        };
        assert(f@ == initial_file(dv[j as int]));
        upsert_exec(&mut out, f);
        j = j + 1;
    }
    proof {
        assert(dv.subrange(0, n as int) =~= dv);
    }
    out
}

/// One reconciled record: the status observation, its counts overwritten by
/// the numeric summary's entry for the same path when there is one.
pub open spec fn merged_file(f: FileInfoView, c: Option<NumstatEntryView>) -> FileInfoView {
    match c {
        Some(e) => FileInfoView {
            path: f.path,
            status: f.status,
            added_lines: e.added,
            removed_lines: e.removed,
        },
        None => f,
    }
}

/// The index of the entry for `key`, when the entries hold one.
fn find_entry(entries: &Vec<NumstatEntry>, key: &[u8]) -> (out: Option<usize>)
    ensures
        match out {
            Some(j) => j < entries@.len() && lookup(entries_view(entries@), key@) == Some(
                entries@[j as int]@,
            ),
            None => lookup(entries_view(entries@), key@) is None,
        },
{
    let ghost ev = entries_view(entries@);
    let mut j: usize = entries.len();
    assert(ev.subrange(0, j as int) =~= ev);
    while j > 0
        invariant
            j <= entries@.len(),
            ev == entries_view(entries@),
            lookup(ev, key@) == lookup(ev.subrange(0, j as int), key@),
        decreases j,
    {
        let ghost part = ev.subrange(0, j as int);
        assert(part.drop_last() =~= ev.subrange(0, j as int - 1));
        assert(part.last() == entries@[j as int - 1]@);
        if crate::numstat::bytes_eq(entries[j - 1].path.as_slice(), key) {
            return Some(j - 1);
        }
        j = j - 1;
    }
    assert(ev.subrange(0, 0).len() == 0);
    None
}

/// Reconciles the status mapping with the parsed numeric entries.
///
/// The result has one record per status record, in the same order, with the
/// same path and status; its counts are the numeric summary's entry for that
/// path when the entries hold one, and stay absent otherwise.
pub fn reconcile(statuses: &Vec<FileInfo>, entries: &Vec<NumstatEntry>) -> (out: Vec<FileInfo>)
    ensures
        out@.len() == statuses@.len(),
        forall|i: int|
            0 <= i < out@.len() ==> #[trigger] files_view(out@)[i] == merged_file(
                files_view(statuses@)[i],
                lookup(entries_view(entries@), encode_utf8(files_view(statuses@)[i].path)),
            ),
{
    let mut out: Vec<FileInfo> = Vec::new();
    let n = statuses.len();
    let mut i: usize = 0;
    while i < n
        invariant
            i <= n == statuses@.len(),
            out@.len() == i,
            forall|k: int|
                0 <= k < i ==> #[trigger] files_view(out@)[k] == merged_file(
                    files_view(statuses@)[k],
                    lookup(entries_view(entries@), encode_utf8(files_view(statuses@)[k].path)),
                ),
        decreases n - i,
    {
        let ghost prev = files_view(out@);
        let key = statuses[i].path.as_str().as_bytes();
        assert(key@ == encode_utf8(files_view(statuses@)[i as int].path));
        let merged = match find_entry(entries, key) {
            Some(j) => FileInfo {
                path: statuses[i].path.clone(),
                status: statuses[i].status,
                added_lines: entries[j].added,
                removed_lines: entries[j].removed,
            },
            None => FileInfo {
                path: statuses[i].path.clone(),
                status: statuses[i].status,
                added_lines: statuses[i].added_lines,
                removed_lines: statuses[i].removed_lines,
            },
        };
        assert(merged@ == merged_file(
            files_view(statuses@)[i as int],
            lookup(entries_view(entries@), encode_utf8(files_view(statuses@)[i as int].path)),
        ));
        out.push(merged);
        proof {
            assert(files_view(out@) =~= prev.push(merged@));
        }
        i = i + 1;
    }
    out
}

} // verus!

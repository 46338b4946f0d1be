//! Projection into the tabular sink's two relations — one `commits` row per
//! commit record, one `commit_files` row per file record — and the
//! documented join that reads them back, one joined row per file row.
//!
//! The absent-vs-zero distinction of the counts survives the projection:
//! an absent count stays `None` (SQL NULL), never 0.

use vstd::prelude::*;
use crate::records::{FileInfoView, GitLogEntry, GitLogEntryView};
use crate::status::{label_of, status_label};

verus! {

/// One row of the `commits` relation.
pub struct CommitRow {
    pub id: String,
    pub summary: String,
    pub author_name: String,
    pub author_email: String,
    pub author_when: i64,
}

/// The mathematical value of a `CommitRow`.
pub struct CommitRowView {
    pub id: Seq<char>,
    pub summary: Seq<char>,
    pub author_name: Seq<char>,
    pub author_email: Seq<char>,
    pub author_when: i64,
}

impl View for CommitRow {
    type V = CommitRowView;

    open spec fn view(&self) -> CommitRowView {
        CommitRowView {
            id: self.id@,
            summary: self.summary@,
            author_name: self.author_name@,
            author_email: self.author_email@,
            author_when: self.author_when,
        }
    }
}

/// One row of the `commit_files` relation.
pub struct FileRow {
    pub id: String,
    pub name: String,
    pub status: String,
    pub added: Option<u32>,
    pub deleted: Option<u32>,
}

/// The mathematical value of a `FileRow`.
pub struct FileRowView {
    pub id: Seq<char>,
    pub name: Seq<char>,
    pub status: Seq<char>,
    pub added: Option<u32>,
    pub deleted: Option<u32>,
}

impl View for FileRow {
    type V = FileRowView;

    open spec fn view(&self) -> FileRowView {
        FileRowView {
            id: self.id@,
            name: self.name@,
            status: self.status@,
            added: self.added,
            deleted: self.deleted,
        }
    }
}

/// One row of the read-back join of the two relations.
pub struct QueryResult {
    pub id: String,
    pub summary: String,
    pub author_name: String,
    pub author_email: String,
    pub author_when: i64,
    pub path: String,
    pub status: String,
    pub added: Option<u32>,
    pub deleted: Option<u32>,
}

/// The mathematical value of a `QueryResult`.
pub struct QueryResultView {
    pub id: Seq<char>,
    pub summary: Seq<char>,
    pub author_name: Seq<char>,
    pub author_email: Seq<char>,
    pub author_when: i64,
    pub path: Seq<char>,
    pub status: Seq<char>,
    pub added: Option<u32>,
    pub deleted: Option<u32>,
}

impl View for QueryResult {
    type V = QueryResultView;

    open spec fn view(&self) -> QueryResultView {
        QueryResultView {
            id: self.id@,
            summary: self.summary@,
            author_name: self.author_name@,
            author_email: self.author_email@,
            author_when: self.author_when,
            path: self.path@,
            status: self.status@,
            added: self.added,
            deleted: self.deleted,
        }
    }
}

/// The `commits` row of one commit record.
pub open spec fn commit_row_of(e: GitLogEntryView) -> CommitRowView {
    CommitRowView {
        id: e.id,
        summary: e.summary,
        author_name: e.author_name,
        author_email: e.author_email,
        author_when: e.author_when,
    }
}

/// The `commits` relation of a record sequence.
pub open spec fn commit_rows_of(es: Seq<GitLogEntryView>) -> Seq<CommitRowView> {
    es.map_values(|e: GitLogEntryView| commit_row_of(e))
}

/// The `commit_files` row of one file record of the commit `id`.
pub open spec fn file_row_of(id: Seq<char>, f: FileInfoView) -> FileRowView {
    FileRowView {
        id,
        name: f.path,
        status: label_of(f.status),
        added: f.added_lines,
        deleted: f.removed_lines,
    }
}

/// The `commit_files` rows of one commit record.
pub open spec fn file_rows_of_entry(e: GitLogEntryView) -> Seq<FileRowView> {
    Seq::new(e.files.len(), |j: int| file_row_of(e.id, e.files[j]))
}

/// The `commit_files` relation of a record sequence.
pub open spec fn file_rows_of(es: Seq<GitLogEntryView>) -> Seq<FileRowView>
    decreases es.len(),
{
    if es.len() == 0 {
        Seq::empty()
    } else {
        file_rows_of(es.drop_last()) + file_rows_of_entry(es.last())
    }
}

/// The `commits` row for `id`. Read from the back; in a projected table the
/// ids are unique, so at most one row matches anyway.
pub open spec fn find_commit(cs: Seq<CommitRowView>, id: Seq<char>) -> Option<CommitRowView>
    decreases cs.len(),
{
    if cs.len() == 0 {
        None
    } else if cs.last().id == id {
        Some(cs.last())
    } else {
        find_commit(cs.drop_last(), id)
    }
}

/// One joined row: the file row's columns beside its commit row's columns.
pub open spec fn joined_row(c: CommitRowView, f: FileRowView) -> QueryResultView {
    QueryResultView {
        id: f.id,
        summary: c.summary,
        author_name: c.author_name,
        author_email: c.author_email,
        author_when: c.author_when,
        path: f.name,
        status: f.status,
        added: f.added,
        deleted: f.deleted,
    }
}

/// The inner join of the two relations on the commit id: one joined row per
/// file row whose id has a `commits` row.
pub open spec fn joined(cs: Seq<CommitRowView>, fs: Seq<FileRowView>) -> Seq<QueryResultView>
    decreases fs.len(),
{
    if fs.len() == 0 {
        Seq::empty()
    } else {
        let rest = joined(cs, fs.drop_last());
        match find_commit(cs, fs.last().id) {
            Some(c) => rest + seq![joined_row(c, fs.last())],
            None => rest,
        }
    }
}

/// The tuples a record sequence denotes directly, without the detour
/// through the two relations.
pub open spec fn direct_rows_of_entry(e: GitLogEntryView) -> Seq<QueryResultView> {
    Seq::new(e.files.len(), |j: int| joined_row(commit_row_of(e), file_row_of(e.id, e.files[j])))
}

/// All tuples of a record sequence, commit by commit.
pub open spec fn direct_rows(es: Seq<GitLogEntryView>) -> Seq<QueryResultView>
    decreases es.len(),
{
    if es.len() == 0 {
        Seq::empty()
    } else {
        direct_rows(es.drop_last()) + direct_rows_of_entry(es.last())
    }
}

/// No two records share a commit id.
pub open spec fn unique_ids(es: Seq<GitLogEntryView>) -> bool {
    forall|i: int, j: int| 0 <= i < j < es.len() ==> (#[trigger] es[i]).id != (#[trigger] es[j]).id
}

/// Whether some record carries the id.
pub open spec fn has_id(es: Seq<GitLogEntryView>, id: Seq<char>) -> bool {
    exists|k: int| 0 <= k < es.len() && (#[trigger] es[k]).id == id
}

/// The mathematical values of a sequence of commit records.
pub open spec fn log_view(s: Seq<GitLogEntry>) -> Seq<GitLogEntryView> {
    s.map_values(|e: GitLogEntry| e@)
}

/// The mathematical values of a `commits` table.
pub open spec fn commit_table_view(s: Seq<CommitRow>) -> Seq<CommitRowView> {
    s.map_values(|r: CommitRow| r@)
}

/// The mathematical values of a `commit_files` table.
pub open spec fn file_table_view(s: Seq<FileRow>) -> Seq<FileRowView> {
    s.map_values(|r: FileRow| r@)
}

/// The mathematical values of a sequence of joined rows.
pub open spec fn result_rows_view(s: Seq<QueryResult>) -> Seq<QueryResultView> {
    s.map_values(|r: QueryResult| r@)
}

/// Projects the records into the `commits` relation: one row per record,
/// in order.
pub fn commit_rows(entries: &Vec<GitLogEntry>) -> (out: Vec<CommitRow>)
    ensures
        commit_table_view(out@) == commit_rows_of(log_view(entries@)),
{
    let mut out: Vec<CommitRow> = Vec::new();
    let n = entries.len();
    let mut i: usize = 0;
    assert(commit_table_view(out@) =~= commit_rows_of(log_view(entries@)).subrange(0, 0));
    while i < n
        invariant
            i <= n == entries@.len(),
            commit_table_view(out@) == commit_rows_of(log_view(entries@)).subrange(0, i as int),
        decreases n - i,
    {
        let ghost prev = commit_table_view(out@);
        let e = &entries[i];
        let row = CommitRow {
            id: e.id.clone(),
            summary: e.summary.clone(),
            author_name: e.author_name.clone(),
            author_email: e.author_email.clone(),
            author_when: e.author_when,
        };
        assert(row@ == commit_row_of(log_view(entries@)[i as int]));
        out.push(row);
        proof {
            assert(commit_table_view(out@) =~= prev.push(row@));
            assert(commit_table_view(out@) =~= commit_rows_of(log_view(entries@)).subrange(
                0,
                i as int + 1,
            ));
        }
        i = i + 1;
    }
    proof {
        assert(commit_rows_of(log_view(entries@)).subrange(0, n as int) =~= commit_rows_of(
            log_view(entries@),
        ));
    }
    out
}

/// Projects the records into the `commit_files` relation: zero or more rows
/// per record, each carrying its record's commit id, the path, the textual
/// status label, and the counts — an absent count staying absent.
pub fn file_rows(entries: &Vec<GitLogEntry>) -> (out: Vec<FileRow>)
    ensures
        file_table_view(out@) == file_rows_of(log_view(entries@)),
{
    let ghost lv = log_view(entries@);
    let mut out: Vec<FileRow> = Vec::new();
    let n = entries.len();
    let mut i: usize = 0;
    assert(file_table_view(out@) =~= file_rows_of(lv.subrange(0, 0)));
    while i < n
        invariant
            i <= n == entries@.len(),
            lv == log_view(entries@),
            file_table_view(out@) == file_rows_of(lv.subrange(0, i as int)),
        decreases n - i,
    {
        let ghost done = file_rows_of(lv.subrange(0, i as int));
        let ghost ev = lv[i as int];
        let e = &entries[i];
        let m = e.files.len();
        let mut j: usize = 0;
        assert(file_table_view(out@) =~= done + file_rows_of_entry(ev).subrange(0, 0));
        while j < m
            invariant
                j <= m == e.files@.len(),
                ev == lv[i as int],
                i < lv.len(),
                ev.files.len() == m,
                lv == log_view(entries@),
                n == entries@.len(),
                i < n,
                e == entries@[i as int],
                done == file_rows_of(lv.subrange(0, i as int)),
                file_table_view(out@) == done + file_rows_of_entry(ev).subrange(0, j as int),
            decreases m - j,
        {
            let ghost prev = file_table_view(out@);
            let f = &e.files[j];
            let row = FileRow {
                id: e.id.clone(),
                name: f.path.clone(),
                status: status_label(f.status).to_owned(),
                added: f.added_lines,
                deleted: f.removed_lines,
            };
            assert(row@ == file_row_of(ev.id, ev.files[j as int]));
            out.push(row);
            proof {
                assert(file_table_view(out@) =~= prev.push(row@));
                assert(file_rows_of_entry(ev).subrange(0, j as int + 1) =~= file_rows_of_entry(
                    ev,
                ).subrange(0, j as int).push(row@));
                assert(file_table_view(out@) =~= done + file_rows_of_entry(ev).subrange(
                    0,
                    j as int + 1,
                ));
            }
            j = j + 1;
        }
        proof {
            assert(file_rows_of_entry(ev).subrange(0, m as int) =~= file_rows_of_entry(ev));
            assert(lv.subrange(0, i as int + 1).drop_last() =~= lv.subrange(0, i as int));
            assert(lv.subrange(0, i as int + 1).last() == ev);
        }
        i = i + 1;
    }
    proof {
        assert(lv.subrange(0, n as int) =~= lv);
    }
    out
}

/// The index of the `commits` row for `id`, when the table holds one.
fn find_commit_row(cs: &Vec<CommitRow>, id: &String) -> (out: Option<usize>)
    ensures
        match out {
            Some(j) => j < cs@.len() && find_commit(commit_table_view(cs@), id@) == Some(
                cs@[j as int]@,
            ),
            None => find_commit(commit_table_view(cs@), id@) is None,
        },
{
    let ghost cv = commit_table_view(cs@);
    let mut j: usize = cs.len();
    assert(cv.subrange(0, j as int) =~= cv);
    while j > 0
        invariant
            j <= cs@.len(),
            cv == commit_table_view(cs@),
            find_commit(cv, id@) == find_commit(cv.subrange(0, j as int), id@),
        decreases j,
    {
        let ghost part = cv.subrange(0, j as int);
        assert(part.drop_last() =~= cv.subrange(0, j as int - 1));
        assert(part.last() == cs@[j as int - 1]@);
        if cs[j - 1].id == *id {
            return Some(j - 1);
        }
        j = j - 1;
    }
    assert(cv.subrange(0, 0).len() == 0);
    None
}

/// Reads the two relations back: the inner join on the commit id, one
/// joined row per file row whose id has a `commits` row.
pub fn join_tables(cs: &Vec<CommitRow>, fs: &Vec<FileRow>) -> (out: Vec<QueryResult>)
    ensures
        result_rows_view(out@) == joined(commit_table_view(cs@), file_table_view(fs@)),
{
    let ghost cv = commit_table_view(cs@);
    let ghost fv = file_table_view(fs@);
    let mut out: Vec<QueryResult> = Vec::new();
    let n = fs.len();
    let mut j: usize = 0;
    assert(result_rows_view(out@) =~= joined(cv, fv.subrange(0, 0)));
    while j < n
        invariant
            j <= n == fs@.len(),
            cv == commit_table_view(cs@),
            fv == file_table_view(fs@),
            result_rows_view(out@) == joined(cv, fv.subrange(0, j as int)),
        decreases n - j,
    {
        let ghost prev = result_rows_view(out@);
        assert(fv.subrange(0, j as int + 1).drop_last() =~= fv.subrange(0, j as int));
        assert(fv.subrange(0, j as int + 1).last() == fs@[j as int]@);
        let f = &fs[j];
        match find_commit_row(cs, &f.id) {
            Some(k) => {
                let c = &cs[k];
                let row = QueryResult {
                    id: f.id.clone(),
                    summary: c.summary.clone(),
                    author_name: c.author_name.clone(),
                    author_email: c.author_email.clone(),
                    author_when: c.author_when,
                    path: f.name.clone(),
                    status: f.status.clone(),
                    added: f.added,
                    deleted: f.deleted,
                };
                assert(row@ == joined_row(cs@[k as int]@, fs@[j as int]@));
                out.push(row);
                proof {
                    assert(result_rows_view(out@) =~= prev.push(row@));
                    assert(prev.push(row@) =~= prev + seq![row@]);
                }
            },
            None => {},
        }
        j = j + 1;
    }
    proof {
        assert(fv.subrange(0, n as int) =~= fv);
    }
    out
}

/// Joining distributes over concatenation of file rows.
proof fn lemma_join_concat(cs: Seq<CommitRowView>, f1: Seq<FileRowView>, f2: Seq<FileRowView>)
    ensures
        joined(cs, f1 + f2) == joined(cs, f1) + joined(cs, f2),
    decreases f2.len(),
{
    if f2.len() == 0 {
        assert(f1 + f2 =~= f1);
        assert(joined(cs, f1) + joined(cs, f2) =~= joined(cs, f1));
    } else {
        assert((f1 + f2).drop_last() =~= f1 + f2.drop_last());
        assert((f1 + f2).last() == f2.last());
        lemma_join_concat(cs, f1, f2.drop_last());
        match find_commit(cs, f2.last().id) {
            Some(c) => {
                assert(joined(cs, f1) + (joined(cs, f2.drop_last()) + seq![
                    joined_row(c, f2.last()),
                ]) =~= (joined(cs, f1) + joined(cs, f2.drop_last())) + seq![
                    joined_row(c, f2.last()),
                ]);
            },
            None => {},
        }
    }
}

/// Every file row of a projected table carries the id of some record.
proof fn lemma_file_rows_ids(es: Seq<GitLogEntryView>)
    ensures
        forall|j: int|
            0 <= j < file_rows_of(es).len() ==> has_id(es, (#[trigger] file_rows_of(es)[j]).id),
    decreases es.len(),
{
    if es.len() > 0 {
        lemma_file_rows_ids(es.drop_last());
        assert forall|j: int| 0 <= j < file_rows_of(es).len() implies has_id(
            es,
            (#[trigger] file_rows_of(es)[j]).id,
        ) by {
            let prefix = file_rows_of(es.drop_last());
            if j < prefix.len() {
                assert(file_rows_of(es)[j] == prefix[j]);
                assert(has_id(es.drop_last(), prefix[j].id));
                let k = choose|k: int|
                    0 <= k < es.drop_last().len() && (#[trigger] es.drop_last()[k]).id
                        == prefix[j].id;
                assert(es[k].id == prefix[j].id);
            } else {
                assert(file_rows_of(es)[j] == file_rows_of_entry(es.last())[j - prefix.len()]);
                assert(es[es.len() - 1].id == file_rows_of(es)[j].id);
            }
        }
    }
}

/// A `commits` row whose id no file row carries does not change the join.
proof fn lemma_join_ignores_new_commit(
    cs: Seq<CommitRowView>,
    c: CommitRowView,
    fs: Seq<FileRowView>,
)
    requires
        forall|j: int| 0 <= j < fs.len() ==> (#[trigger] fs[j]).id != c.id,
    ensures
        joined(cs.push(c), fs) == joined(cs, fs),
    decreases fs.len(),
{
    if fs.len() > 0 {
        lemma_join_ignores_new_commit(cs, c, fs.drop_last());
        assert(cs.push(c).last() == c);
        assert(cs.push(c).drop_last() =~= cs);
        assert(fs[fs.len() - 1].id != c.id);
    }
}

/// Joining a block of file rows that all carry one id, with that id's
/// `commits` row, joins each row with that row.
proof fn lemma_join_uniform_block(
    cs: Seq<CommitRowView>,
    c: CommitRowView,
    id: Seq<char>,
    fs: Seq<FileRowView>,
)
    requires
        forall|j: int| 0 <= j < fs.len() ==> (#[trigger] fs[j]).id == id,
        find_commit(cs, id) == Some(c),
    ensures
        joined(cs, fs) == fs.map_values(|f: FileRowView| joined_row(c, f)),
    decreases fs.len(),
{
    if fs.len() == 0 {
        assert(joined(cs, fs) =~= fs.map_values(|f: FileRowView| joined_row(c, f)));
    } else {
        lemma_join_uniform_block(cs, c, id, fs.drop_last());
        assert(fs[fs.len() - 1].id == id);
        assert(joined(cs, fs.drop_last()) + seq![joined_row(c, fs.last())] =~= fs.map_values(
            |f: FileRowView| joined_row(c, f),
        ));
    }
}

/// Round trip through the tabular sink: projecting a record sequence into
/// the two relations and reading them back through the documented join
/// yields exactly the tuples the records denote — no row lost, none
/// duplicated, the absent counts still absent.
pub proof fn lemma_round_trip(es: Seq<GitLogEntryView>)
    requires
        unique_ids(es),
    ensures
        joined(commit_rows_of(es), file_rows_of(es)) == direct_rows(es),
    decreases es.len(),
{
    if es.len() == 0 {
        assert(joined(commit_rows_of(es), file_rows_of(es)) =~= direct_rows(es));
    } else {
        let prev = es.drop_last();
        let e = es.last();
        let cs_prev = commit_rows_of(prev);
        let cs = commit_rows_of(es);
        let row_e = commit_row_of(e);
        assert(cs =~= cs_prev.push(row_e));

        // the old file rows join as before: none carries the new id
        lemma_file_rows_ids(prev);
        assert forall|j: int| 0 <= j < file_rows_of(prev).len() implies (#[trigger] file_rows_of(
            prev,
        )[j]).id != row_e.id by {
            let k = choose|k: int|
                0 <= k < prev.len() && (#[trigger] prev[k]).id == file_rows_of(prev)[j].id;
            assert(es[k].id == file_rows_of(prev)[j].id);
            assert(es[k].id != es[es.len() - 1].id);
        }
        lemma_join_ignores_new_commit(cs_prev, row_e, file_rows_of(prev));
        lemma_round_trip(prev);

        // the new block joins with the new commits row
        assert(find_commit(cs, e.id) == Some(row_e));
        assert(forall|j: int|
            0 <= j < file_rows_of_entry(e).len() ==> (#[trigger] file_rows_of_entry(e)[j]).id
                == e.id);
        lemma_join_uniform_block(cs, row_e, e.id, file_rows_of_entry(e));
        assert(file_rows_of_entry(e).map_values(|f: FileRowView| joined_row(row_e, f))
            =~= direct_rows_of_entry(e));

        lemma_join_concat(cs, file_rows_of(prev), file_rows_of_entry(e));
        assert(joined(cs, file_rows_of(es)) == joined(cs, file_rows_of(prev)) + joined(
            cs,
            file_rows_of_entry(e),
        ));
    }
}

} // verus!

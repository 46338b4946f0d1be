//! Numstat parser: turns the textual numeric summary of a diff — one line
//! per changed file, `<added><blanks><removed><blanks><path>` — into
//! structured per-file line-count entries.
//!
//! The count fields are runs of decimal digits; a binary file is rendered
//! with the placeholder `-` in both fields, and yields an entry whose counts
//! are absent (never zero). The path is the whole remainder of the line
//! after the second blank run, so paths containing blanks survive. A line
//! that does not have this shape — including one whose counts do not fit in
//! 32 bits — is skipped, not an error.

use vstd::prelude::*;
use vstd::string::StringSliceAdditionalSpecFns;
use vstd::utf8::encode_utf8;
use crate::records::{FileInfo, FileInfoView, files_view};

verus! {

/// An ASCII decimal digit.
pub open spec fn is_digit(b: u8) -> bool {
    48 <= b <= 57
}

/// A blank: space or horizontal tab.
pub open spec fn is_blank(b: u8) -> bool {
    b == 32 || b == 9
}

/// The numeric value of a digit byte.
pub open spec fn digit_val(b: u8) -> int {
    b - 48
}

/// One or more decimal digits.
pub open spec fn all_digits(s: Seq<u8>) -> bool {
    s.len() > 0 && forall|j: int| 0 <= j < s.len() ==> is_digit(#[trigger] s[j])
}

/// The value of a digit run read as a decimal numeral.
pub open spec fn dec_value(s: Seq<u8>) -> int
    decreases s.len(),
{
    if s.len() == 0 {
        0
    } else {
        dec_value(s.drop_last()) * 10 + digit_val(s.last())
    }
}

/// The index just past the maximal digit run starting at `i`.
pub open spec fn digit_run_end(s: Seq<u8>, i: int) -> int
    decreases s.len() - i,
    when 0 <= i <= s.len()
{
    if i < s.len() && is_digit(s[i]) {
        digit_run_end(s, i + 1)
    } else {
        i
    }
}

/// The index just past the maximal blank run starting at `i`.
pub open spec fn blank_run_end(s: Seq<u8>, i: int) -> int
    decreases s.len() - i,
    when 0 <= i <= s.len()
{
    if i < s.len() && is_blank(s[i]) {
        blank_run_end(s, i + 1)
    } else {
        i
    }
}

pub proof fn lemma_digit_run_end(s: Seq<u8>, i: int)
    requires
        0 <= i <= s.len(),
    ensures
        i <= digit_run_end(s, i) <= s.len(),
        forall|j: int| i <= j < digit_run_end(s, i) ==> is_digit(#[trigger] s[j]),
        digit_run_end(s, i) < s.len() ==> !is_digit(s[digit_run_end(s, i)]),
    decreases s.len() - i,
{
    if i < s.len() && is_digit(s[i]) {
        lemma_digit_run_end(s, i + 1);
    }
}

pub proof fn lemma_blank_run_end(s: Seq<u8>, i: int)
    requires
        0 <= i <= s.len(),
    ensures
        i <= blank_run_end(s, i) <= s.len(),
        forall|j: int| i <= j < blank_run_end(s, i) ==> is_blank(#[trigger] s[j]),
        blank_run_end(s, i) < s.len() ==> !is_blank(s[blank_run_end(s, i)]),
    decreases s.len() - i,
{
    if i < s.len() && is_blank(s[i]) {
        lemma_blank_run_end(s, i + 1);
    }
}

proof fn lemma_dec_value_nonneg(s: Seq<u8>)
    requires
        forall|j: int| 0 <= j < s.len() ==> is_digit(#[trigger] s[j]),
    ensures
        dec_value(s) >= 0,
    decreases s.len(),
{
    if s.len() > 0 {
        lemma_dec_value_nonneg(s.drop_last());
    }
}

/// Extending a digit run to the right never lowers its decimal value.
proof fn lemma_dec_value_monotonic(s: Seq<u8>, lo: int, mid: int, hi: int)
    requires
        0 <= lo <= mid <= hi <= s.len(),
        forall|j: int| lo <= j < hi ==> is_digit(#[trigger] s[j]),
    ensures
        dec_value(s.subrange(lo, hi)) >= dec_value(s.subrange(lo, mid)),
    decreases hi - mid,
{
    if mid < hi {
        let shorter = s.subrange(lo, hi - 1);
        assert(s.subrange(lo, hi).drop_last() =~= shorter);
        lemma_dec_value_monotonic(s, lo, mid, hi - 1);
        lemma_dec_value_nonneg(shorter);
    }
}

/// What `parse_int` accepts: a non-empty digit string whose value fits the
/// count type.
pub open spec fn int_of_decimal(s: Seq<u8>) -> Option<u32> {
    if all_digits(s) && dec_value(s) <= u32::MAX {
        Some(dec_value(s) as u32)
    } else {
        None
    }
}

/// Parses the value of the digit run `s[lo..hi]`, or reports that it
/// exceeds the count type.
fn parse_decimal(s: &[u8], lo: usize, hi: usize) -> (out: Option<u32>)
    requires
        lo < hi <= s@.len(),
        forall|j: int| lo <= j < hi ==> is_digit(#[trigger] s@[j]),
    ensures
        match out {
            Some(v) => v == dec_value(s@.subrange(lo as int, hi as int)),
            None => dec_value(s@.subrange(lo as int, hi as int)) > u32::MAX,
        },
{
    let mut acc: u64 = 0;
    let mut j: usize = lo;
    while j < hi
        invariant
            lo <= j <= hi <= s@.len(),
            forall|k: int| lo <= k < hi ==> is_digit(#[trigger] s@[k]),
            acc <= u32::MAX,
            acc == dec_value(s@.subrange(lo as int, j as int)),
        decreases hi - j,
    {
        let b: u8 = *vstd::slice::slice_index_get(s, j);
        let d: u8 = b - 48;
        let next: u64 = acc * 10 + (d as u64);
        assert(s@.subrange(lo as int, j as int + 1).drop_last() =~= s@.subrange(
            lo as int,
            j as int,
        ));
        if next > u32::MAX as u64 {
            proof {
                lemma_dec_value_monotonic(s@, lo as int, j as int + 1, hi as int);
            }
            return None;
        }
        acc = next;
        j = j + 1;
    }
    Some(acc as u32)
}

/// Parses a whole string as a non-negative decimal count.
///
/// Returns the value exactly when the string is one or more decimal digits
/// and the value fits in 32 bits; anything else — empty, a sign, a stray
/// character, an overflowing numeral — is `None`, never a sentinel number.
pub fn parse_int(s: &str) -> (out: Option<u32>)
    ensures
        out == int_of_decimal(s.spec_bytes()),
{
    let bytes = s.as_bytes();
    let n = bytes.len();
    proof {
        lemma_digit_run_end(bytes@, 0);
    }
    let run = scan_digits(bytes, 0);
    if n == 0 || run < n {
        return None;
    }
    assert(bytes@.subrange(0, n as int) =~= bytes@);
    parse_decimal(bytes, 0, n)
}

/// The index just past the maximal digit run starting at `i`.
fn scan_digits(s: &[u8], i: usize) -> (out: usize)
    requires
        i <= s@.len(),
    ensures
        out == digit_run_end(s@, i as int),
        i <= out <= s@.len(),
{
    proof {
        lemma_digit_run_end(s@, i as int);
    }
    let mut j: usize = i;
    loop
        invariant_except_break
            i <= j <= s@.len(),
            digit_run_end(s@, i as int) == digit_run_end(s@, j as int),
        ensures
            i <= j <= s@.len(),
            j == digit_run_end(s@, i as int),
        decreases s@.len() - j,
    {
        if j >= s.len() {
            break;
        }
        let b: u8 = *vstd::slice::slice_index_get(s, j);
        if !(48 <= b && b <= 57) {
            break;
        }
        j = j + 1;
    }
    j
}

/// One per-file entry of the numeric summary: the path bytes exactly as the
/// summary spells them, and the added/removed counts — both present for a
/// textual file, both absent for a binary one.
pub struct NumstatEntry {
    pub path: Vec<u8>,
    pub added: Option<u32>,
    pub removed: Option<u32>,
}

/// The mathematical value of a `NumstatEntry`.
pub struct NumstatEntryView {
    pub path: Seq<u8>,
    pub added: Option<u32>,
    pub removed: Option<u32>,
}

impl View for NumstatEntry {
    type V = NumstatEntryView;

    open spec fn view(&self) -> NumstatEntryView {
        NumstatEntryView { path: self.path@, added: self.added, removed: self.removed }
    }
}

/// The mathematical values of a sequence of numstat entries.
pub open spec fn entries_view(s: Seq<NumstatEntry>) -> Seq<NumstatEntryView> {
    s.map_values(|e: NumstatEntry| e@)
}

/// The index just past the count field starting at `i`: a single `-`, or
/// the maximal digit run.
pub open spec fn field_end(s: Seq<u8>, i: int) -> int
    recommends
        0 <= i <= s.len(),
{
    if i < s.len() && s[i] == 45 {
        i + 1
    } else {
        digit_run_end(s, i)
    }
}

/// What one summary line denotes.
///
/// A line matches the grammar when it is two count fields, each either a
/// digit run whose value fits in 32 bits or the placeholder `-`, with both
/// fields of the same kind, separated by non-empty blank runs, followed by a
/// non-empty remainder: the path. Everything else is `None`: skipped.
pub open spec fn parse_line(s: Seq<u8>) -> Option<NumstatEntryView> {
    let f1 = field_end(s, 0);
    let w1 = blank_run_end(s, f1);
    let f2 = field_end(s, w1);
    let w2 = blank_run_end(s, f2);
    if 0 < f1 && f1 < w1 && w1 < f2 && f2 < w2 && w2 < s.len() {
        let fld1 = s.subrange(0, f1);
        let fld2 = s.subrange(w1, f2);
        let path = s.subrange(w2, s.len() as int);
        if fld1 == seq![45u8] && fld2 == seq![45u8] {
            Some(NumstatEntryView { path, added: None, removed: None })
        } else if all_digits(fld1) && all_digits(fld2) && dec_value(fld1) <= u32::MAX
            && dec_value(fld2) <= u32::MAX {
            Some(
                NumstatEntryView {
                    path,
                    added: Some(dec_value(fld1) as u32),
                    removed: Some(dec_value(fld2) as u32),
                },
            )
        } else {
            None
        }
    } else {
        None
    }
}

/// Parses one summary line; `None` exactly when the line does not match the
/// grammar.
pub fn parse_numstat_line(line: &[u8]) -> (out: Option<NumstatEntry>)
    ensures
        match out {
            Some(e) => parse_line(line@) == Some(e@),
            None => parse_line(line@) is None,
        },
{
    let n = line.len();
    let f1 = scan_field(line, 0);
    let w1 = scan_blanks(line, f1);
    let f2 = scan_field(line, w1);
    let w2 = scan_blanks(line, f2);
    if !(0 < f1 && f1 < w1 && w1 < f2 && f2 < w2 && w2 < n) {
        return None;
    }
    let ghost fld1 = line@.subrange(0, f1 as int);
    let ghost fld2 = line@.subrange(w1 as int, f2 as int);
    let dash1 = *vstd::slice::slice_index_get(line, 0) == 45;
    let dash2 = *vstd::slice::slice_index_get(line, w1) == 45;
    proof {
        lemma_digit_run_end(line@, 0);
        lemma_digit_run_end(line@, w1 as int);
        if dash1 {
            assert(fld1 =~= seq![45u8]);
        } else {
            assert(forall|j: int| 0 <= j < f1 ==> is_digit(#[trigger] fld1[j]));
            assert(!is_digit(45));
            assert(fld1 != seq![45u8]) by {
                assert(is_digit(fld1[0]));
            }
        }
        if dash2 {
            assert(fld2 =~= seq![45u8]);
        } else {
            assert(forall|j: int| 0 <= j < fld2.len() ==> is_digit(#[trigger] fld2[j]));
            assert(fld2 != seq![45u8]) by {
                assert(is_digit(fld2[0]));
            }
        }
    }
    let path_slice = vstd::slice::slice_subrange(line, w2, n);
    let path = vstd::slice::slice_to_vec(path_slice);
    if dash1 && dash2 {
        Some(NumstatEntry { path, added: None, removed: None })
    } else if !dash1 && !dash2 {
        let a = parse_decimal(line, 0, f1);
        let r = parse_decimal(line, w1, f2);
        match (a, r) {
            (Some(av), Some(rv)) => Some(
                NumstatEntry { path, added: Some(av), removed: Some(rv) },
            ),
            _ => None,
        }
    } else {
        None
    }
}

/// The index just past the count field starting at `i`.
fn scan_field(s: &[u8], i: usize) -> (out: usize)
    requires
        i <= s@.len(),
    ensures
        out == field_end(s@, i as int),
        i <= out <= s@.len(),
{
    if i < s.len() && *vstd::slice::slice_index_get(s, i) == 45 {
        i + 1
    } else {
        scan_digits(s, i)
    }
}

/// The index just past the maximal blank run starting at `i`.
fn scan_blanks(s: &[u8], i: usize) -> (out: usize)
    requires
        i <= s@.len(),
    ensures
        out == blank_run_end(s@, i as int),
        i <= out <= s@.len(),
{
    proof {
        lemma_blank_run_end(s@, i as int);
    }
    let mut j: usize = i;
    loop
        invariant_except_break
            i <= j <= s@.len(),
            blank_run_end(s@, i as int) == blank_run_end(s@, j as int),
        ensures
            i <= j <= s@.len(),
            j == blank_run_end(s@, i as int),
        decreases s@.len() - j,
    {
        if j >= s.len() {
            break;
        }
        let b: u8 = *vstd::slice::slice_index_get(s, j);
        if !(b == 32 || b == 9) {
            break;
        }
        j = j + 1;
    }
    j
}

/// The index of the first line-feed byte at or after `i`, or the end.
pub open spec fn line_break(s: Seq<u8>, i: int) -> int
    decreases s.len() - i,
    when 0 <= i <= s.len()
{
    if i < s.len() && s[i] != 10 {
        line_break(s, i + 1)
    } else {
        i
    }
}

pub proof fn lemma_line_break(s: Seq<u8>, i: int)
    requires
        0 <= i <= s.len(),
    ensures
        i <= line_break(s, i) <= s.len(),
        line_break(s, i) < s.len() ==> s[line_break(s, i)] == 10,
    decreases s.len() - i,
{
    if i < s.len() && s[i] != 10 {
        lemma_line_break(s, i + 1);
    }
}

/// The lines of the block from `i` on, split on line feeds.
pub open spec fn split_lines_from(s: Seq<u8>, i: int) -> Seq<Seq<u8>>
    decreases s.len() - i,
    when 0 <= i <= s.len()
    via split_lines_from_decreases
{
    let e = line_break(s, i);
    if e >= s.len() {
        seq![s.subrange(i, e)]
    } else {
        seq![s.subrange(i, e)] + split_lines_from(s, e + 1)
    }
}

#[via_fn]
proof fn split_lines_from_decreases(s: Seq<u8>, i: int) {
    lemma_line_break(s, i);
}

/// The lines of a text block, split on the line-feed byte.
pub open spec fn split_lines(s: Seq<u8>) -> Seq<Seq<u8>> {
    split_lines_from(s, 0)
}

/// The index of the first line-feed byte at or after `i`, or the end.
fn scan_line_break(s: &[u8], i: usize) -> (out: usize)
    requires
        i <= s@.len(),
    ensures
        out == line_break(s@, i as int),
        i <= out <= s@.len(),
{
    proof {
        lemma_line_break(s@, i as int);
    }
    let mut j: usize = i;
    loop
        invariant_except_break
            i <= j <= s@.len(),
            line_break(s@, i as int) == line_break(s@, j as int),
        ensures
            i <= j <= s@.len(),
            j == line_break(s@, i as int),
        decreases s@.len() - j,
    {
        if j >= s.len() {
            break;
        }
        let b: u8 = *vstd::slice::slice_index_get(s, j);
        if b == 10 {
            break;
        }
        j = j + 1;
    }
    j
}

/// Splits a block into its lines.
fn split_into_lines(text: &[u8]) -> (out: Vec<Vec<u8>>)
    ensures
        out@.map_values(|l: Vec<u8>| l@) == split_lines(text@),
{
    let mut out: Vec<Vec<u8>> = Vec::new();
    let mut i: usize = 0;
    loop
        invariant_except_break
            i <= text@.len(),
            split_lines(text@) == out@.map_values(|l: Vec<u8>| l@) + split_lines_from(
                text@,
                i as int,
            ),
        ensures
            out@.map_values(|l: Vec<u8>| l@) == split_lines(text@),
        decreases text@.len() - i,
    {
        proof {
            lemma_line_break(text@, i as int);
        }
        let ghost prev = out@.map_values(|l: Vec<u8>| l@);
        let e = scan_line_break(text, i);
        let line = vstd::slice::slice_to_vec(vstd::slice::slice_subrange(text, i, e));
        out.push(line);
        proof {
            assert(out@.map_values(|l: Vec<u8>| l@) =~= prev.push(
                text@.subrange(i as int, e as int),
            ));
        }
        if e == text.len() {
            proof {
                assert(split_lines_from(text@, i as int) =~= seq![
                    text@.subrange(i as int, e as int),
                ]);
                assert(out@.map_values(|l: Vec<u8>| l@) =~= prev + split_lines_from(
                    text@,
                    i as int,
                ));
            }
            break;
        }
        proof {
            assert(out@.map_values(|l: Vec<u8>| l@) + split_lines_from(text@, e + 1 as int)
                =~= prev + split_lines_from(text@, i as int));
        }
        i = e + 1;
    }
    out
}

/// Whether two byte strings are equal.
pub fn bytes_eq(a: &[u8], b: &[u8]) -> (out: bool)
    ensures
        out == (a@ == b@),
{
    if a.len() != b.len() {
        return false;
    }
    let n = a.len();
    let mut j: usize = 0;
    while j < n
        invariant
            j <= n,
            n == a@.len() == b@.len(),
            forall|k: int| 0 <= k < j ==> a@[k] == b@[k],
        decreases n - j,
    {
        if *vstd::slice::slice_index_get(a, j) != *vstd::slice::slice_index_get(b, j) {
            return false;
        }
        j = j + 1;
    }
    proof {
        assert(a@ =~= b@);
    }
    true
}

/// Whether `k` is the UTF-8 encoding of the path of some file record:
/// the caller-supplied universe of known changed paths.
pub open spec fn known_path(statuses: Seq<FileInfoView>, k: Seq<u8>) -> bool {
    exists|i: int| 0 <= i < statuses.len() && encode_utf8(#[trigger] statuses[i].path) == k
}

/// Whether the byte string is the encoding of the path of some file record.
pub fn known_contains(statuses: &Vec<FileInfo>, key: &[u8]) -> (out: bool)
    ensures
        out == known_path(files_view(statuses@), key@),
{
    let n = statuses.len();
    let mut j: usize = 0;
    while j < n
        invariant
            j <= n == statuses@.len(),
            forall|k: int|
                0 <= k < j ==> encode_utf8(#[trigger] files_view(statuses@)[k].path) != key@,
        decreases n - j,
    {
        if bytes_eq(statuses[j].path.as_str().as_bytes(), key) {
            assert(encode_utf8(files_view(statuses@)[j as int].path) == key@);
            return true;
        }
        j = j + 1;
    }
    false
}

/// The entry for path `k` among parsed entries: the last one, since a later
/// line overrides an earlier one for the same path.
pub open spec fn lookup(entries: Seq<NumstatEntryView>, k: Seq<u8>) -> Option<NumstatEntryView>
    decreases entries.len(),
{
    if entries.len() == 0 {
        None
    } else if entries.last().path == k {
        Some(entries.last())
    } else {
        lookup(entries.drop_last(), k)
    }
}

/// The counts the summary lines give for path `k`, restricted to the known
/// paths of `statuses`: the last matching line wins; `None` when no line
/// matching the grammar names a known path `k`.
pub open spec fn lines_lookup(
    lines: Seq<Seq<u8>>,
    statuses: Seq<FileInfoView>,
    k: Seq<u8>,
) -> Option<NumstatEntryView>
    decreases lines.len(),
{
    if lines.len() == 0 {
        None
    } else {
        match parse_line(lines.last()) {
            Some(e) => if e.path == k && known_path(statuses, k) {
                Some(e)
            } else {
                lines_lookup(lines.drop_last(), statuses, k)
            },
            None => lines_lookup(lines.drop_last(), statuses, k),
        }
    }
}

/// The counts the whole numeric summary gives for path `k`, restricted to
/// the known paths of `statuses`.
pub open spec fn numstat_lookup(
    text: Seq<u8>,
    statuses: Seq<FileInfoView>,
    k: Seq<u8>,
) -> Option<NumstatEntryView> {
    lines_lookup(split_lines(text), statuses, k)
}

/// Any counts the summary yields are paired: both present or both absent.
pub proof fn lemma_lookup_counts_paired(
    lines: Seq<Seq<u8>>,
    statuses: Seq<FileInfoView>,
    k: Seq<u8>,
)
    ensures
        match lines_lookup(lines, statuses, k) {
            Some(e) => e.added is Some <==> e.removed is Some,
            None => true,
        },
    decreases lines.len(),
{
    if lines.len() > 0 {
        lemma_lookup_counts_paired(lines.drop_last(), statuses, k);
    }
}

/// Parses a numeric summary block into per-file entries, keeping only
/// entries whose path is a known changed path of `statuses`.
///
/// The result is exactly the mapping the summary denotes: looking any path
/// up among the returned entries agrees with reading the summary itself.
pub fn parse_numstat(text: &[u8], statuses: &Vec<FileInfo>) -> (out: Vec<NumstatEntry>)
    ensures
        forall|k: Seq<u8>| #[trigger]
            lookup(entries_view(out@), k) == numstat_lookup(text@, files_view(statuses@), k),
{
    let lines = split_into_lines(text);
    let ghost line_views = lines@.map_values(|l: Vec<u8>| l@);
    let mut out: Vec<NumstatEntry> = Vec::new();
    let n = lines.len();
    let mut j: usize = 0;
    while j < n
        invariant
            j <= n == lines@.len(),
            line_views == lines@.map_values(|l: Vec<u8>| l@),
            line_views == split_lines(text@),
            forall|k: Seq<u8>| #[trigger]
                lookup(entries_view(out@), k) == lines_lookup(
                    line_views.subrange(0, j as int),
                    files_view(statuses@),
                    k,
                ),
        decreases n - j,
    {
        let ghost prev = entries_view(out@);
        let ghost done = line_views.subrange(0, j as int);
        let ghost cur = line_views.subrange(0, j as int + 1);
        let ghost st = files_view(statuses@);
        assert(cur.drop_last() =~= done);
        assert(cur.last() == lines@[j as int]@);
        match parse_numstat_line(lines[j].as_slice()) {
            Some(entry) => {
                let ghost ev = entry@;
                let known = known_contains(statuses, entry.path.as_slice());
                if known {
                    out.push(entry);
                    proof {
                        assert(entries_view(out@) =~= prev.push(ev));
                    }
                }
                proof {
                    assert forall|k: Seq<u8>| #[trigger] lookup(entries_view(out@), k)
                        == lines_lookup(cur, st, k) by {
                        assert(parse_line(cur.last()) == Some(ev));
                        assert(prev.push(ev).drop_last() =~= prev);
                        if known {
                            if k == ev.path {
                                assert(lookup(prev.push(ev), k) == Some(ev));
                            } else {
                                assert(lookup(prev.push(ev), k) == lookup(prev, k));
                                assert(lines_lookup(cur, st, k) == lines_lookup(done, st, k));
                            }
                        } else {
                            if k == ev.path {
                                assert(!known_path(st, k));
                            }
                            assert(lines_lookup(cur, st, k) == lines_lookup(done, st, k));
                        }
                    }
                }
            },
            None => {
                proof {
                    assert forall|k: Seq<u8>| #[trigger] lookup(entries_view(out@), k)
                        == lines_lookup(cur, st, k) by {
                        assert(parse_line(cur.last()) is None);
                        assert(lines_lookup(cur, st, k) == lines_lookup(done, st, k));
                    }
                }
            },
        }
        j = j + 1;
    }
    proof {
        assert(line_views.subrange(0, n as int) =~= split_lines(text@));
    }
    out
}

} // verus!

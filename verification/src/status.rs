//! Diff classifier: the closed set of per-file change-status labels and
//! their textual form, as the tabular sink stores it.

use vstd::prelude::*;

verus! {

/// One label per kind of per-file change observation. The set is closed:
/// every raw observation maps to exactly one of these, and an unlisted kind
/// of observation cannot be represented at all.
#[derive(Clone, Copy, Debug, PartialEq, Eq, Structural)]
pub enum ChangeStatus {
    Added,
    Unmodified,
    Deleted,
    Modified,
    Copied,
    Ignored,
    Untracked,
    Typechange,
    Unreadable,
    Conflicted,
    Renamed,
}

/// The textual label of a status.
pub open spec fn label_of(s: ChangeStatus) -> Seq<char> {
    match s {
        ChangeStatus::Added => "Added"@,
        ChangeStatus::Unmodified => "Unmodified"@,
        ChangeStatus::Deleted => "Deleted"@,
        ChangeStatus::Modified => "Modified"@,
        ChangeStatus::Copied => "Copied"@,
        ChangeStatus::Ignored => "Ignored"@,
        ChangeStatus::Untracked => "Untracked"@,
        ChangeStatus::Typechange => "Typechange"@,
        ChangeStatus::Unreadable => "Unreadable"@,
        ChangeStatus::Conflicted => "Conflicted"@,
        ChangeStatus::Renamed => "Renamed"@,
    }
}

/// Renders a status as its textual label; total over the closed set.
pub fn status_label(s: ChangeStatus) -> (out: &'static str)
    ensures
        out@ == label_of(s),
{
    match s {
        ChangeStatus::Added => "Added",
        ChangeStatus::Unmodified => "Unmodified",
        ChangeStatus::Deleted => "Deleted",
        ChangeStatus::Modified => "Modified",
        ChangeStatus::Copied => "Copied",
        ChangeStatus::Ignored => "Ignored",
        ChangeStatus::Untracked => "Untracked",
        ChangeStatus::Typechange => "Typechange",
        ChangeStatus::Unreadable => "Unreadable",
        ChangeStatus::Conflicted => "Conflicted",
        ChangeStatus::Renamed => "Renamed",
    }
}

} // verus!

//! Time normalizer: turns a version-control timestamp (seconds since the
//! Unix epoch plus a signed minute offset) into the absolute UTC instant it
//! denotes, kept as plain epoch seconds.

use vstd::prelude::*;

verus! {

/// The absolute instant denoted by a timestamp, as Unix epoch seconds:
/// the raw seconds shifted by the minute offset.
pub open spec fn normalized_when(seconds: i64, offset_minutes: i32) -> int {
    seconds + offset_minutes * 60
}

/// Converts a version-control timestamp into absolute Unix epoch seconds.
///
/// The addition must stay within the machine range; callers with
/// realistic timestamps always satisfy this.
pub fn convert_git_time(seconds: i64, offset_minutes: i32) -> (out: i64)
    requires
        i64::MIN <= normalized_when(seconds, offset_minutes) <= i64::MAX,
    ensures
        out == normalized_when(seconds, offset_minutes),
{
    seconds + (offset_minutes as i64) * 60
}

} // verus!

//! Extraction of structural change history from a version-controlled
//! repository: one record per commit, one record per file touched by a
//! single-parent commit, with per-file added/removed line counts.
//!
//! The pipeline itself is verified: parsing the textual numstat summary,
//! reconciling it with the per-file status listing, assembling the ordered
//! commit records, and projecting them into the two relational tables.
//! Reading raw objects out of repository storage and executing SQL are left
//! to unverified callers, which hand this library plain values.

pub mod gittime;
pub mod numstat;
pub mod reconcile;
pub mod records;
pub mod sink;
pub mod status;
pub mod walker;

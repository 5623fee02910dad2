//! The domain model: plain types, no handles, no format opinions.
//! JSON detail blobs travel as their text.

use vstd::prelude::*;

verus! {

/// One reported run, as a client submits it. `detail` is the JSON
/// text of the kind-specific numbers (for behave: scenarios, failed),
/// `null` when the client sent none, so a new stat kind needs no
/// schema change.
#[derive(Clone, Debug, PartialEq, Eq)]
pub struct NewRun {
    pub kind: String,
    pub host: String,
    pub duration_ms: u64,
    pub detail: String,
}

/// One day of one kind, aggregated for the trends table.
#[derive(Clone, Debug, PartialEq, Eq)]
pub struct Daily {
    pub day: String,
    pub kind: String,
    pub runs: i64,
    pub failed: i64,
    pub avg_ms: i64,
}

/// One stored run, as the recent-runs table shows it; `detail` is
/// JSON text.
#[derive(Clone, Debug, PartialEq, Eq)]
pub struct RunRow {
    pub received: String,
    pub kind: String,
    pub host: String,
    pub duration_ms: i64,
    pub detail: String,
}

/// Everything the run page needs, fetched in one trip through the
/// mapper.
#[derive(Clone, Debug, PartialEq, Eq)]
pub struct Report {
    pub daily: Vec<Daily>,
    pub recent: Vec<RunRow>,
}

} // verus!

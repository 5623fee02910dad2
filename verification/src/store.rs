//! The shaping of data on its way into and out of the database: the
//! values an insert binds, and stored rows turned into report rows.
//! The database itself is driven by the mapper thread outside this
//! crate.

use vstd::prelude::*;

use crate::model::{NewRun, RunRow};

verus! {

/// Rows in the recent-runs table on the run page.
pub const RECENT_LIMIT: i64 = 20;

/// The compact JSON text of the value that `text` parses to, or `None`
/// when `text` is not JSON.
pub uninterp spec fn json_canonical(text: Seq<char>) -> Option<Seq<char>>;

/// `serde_json::from_str` into a `serde_json::Value`, written back out
/// through the value's `Display` (compact JSON text). The result is
/// claimed to be `json_canonical` of the input and nothing more: which
/// texts parse, and what their compact form is, is serde_json's.
#[verifier::external_body]
fn parse_json(text: &str) -> (r: Option<String>)
    ensures
        opt_string_view(r) == json_canonical(text@),
{
    match serde_json::from_str::<serde_json::Value>(text) {
        Ok(v) => Some(v.to_string()),
        Err(_) => None,
    }
}

/// The view of an optional string.
pub open spec fn opt_string_view(s: Option<String>) -> Option<Seq<char>> {
    match s {
        Some(t) => Some(t@),
        None => None,
    }
}

/// What a stored detail is shown as: its parsed JSON, or JSON `null`
/// when it did not parse.
pub open spec fn detail_shown(parsed: Option<Seq<char>>) -> Seq<char> {
    match parsed {
        Some(j) => j,
        None => "null"@,
    }
}

/// The detail to show given the outcome of parsing it: the parsed
/// JSON text, or `null` when parsing failed.
pub fn detail_or_null_from(parsed: Option<String>) -> (d: String)
    ensures
        d@ == detail_shown(opt_string_view(parsed)),
{
    match parsed {
        Some(j) => j,
        None => "null".to_owned(),
    }
}

/// A stored detail blob as the report shows it. Reads degrade
/// instead of failing: a corrupt blob becomes JSON `null`.
pub fn detail_or_null(stored: &str) -> (d: String)
    ensures
        d@ == detail_shown(json_canonical(stored@)),
{
    let parsed = parse_json(stored);
    detail_or_null_from(parsed)
}

/// One row of the recent-runs table from the stored columns.
pub fn run_row(
    received: String,
    kind: String,
    host: String,
    duration_ms: i64,
    stored_detail: &str,
) -> (r: RunRow)
    ensures
        r.received == received,
        r.kind == kind,
        r.host == host,
        r.duration_ms == duration_ms,
        r.detail@ == detail_shown(json_canonical(stored_detail@)),
{
    let detail = detail_or_null(stored_detail);
    RunRow { received, kind, host, duration_ms, detail }
}

/// The values bound by the insert of one run.
#[derive(Clone, Debug, PartialEq, Eq)]
pub struct InsertRow {
    pub kind: String,
    pub host: String,
    pub duration_ms: i64,
    pub detail: String,
}

/// Why a run could not be stored.
#[derive(Clone, Copy, Debug, PartialEq, Eq, Structural)]
pub enum StoreError {
    /// The duration does not fit SQLite's signed 64-bit integer.
    DurationOutOfRange,
}

/// The values to insert for `run`: its kind, host and detail text,
/// and its duration as a signed 64-bit integer, which the database
/// column holds; a duration beyond that range is refused.
pub fn insert_row(run: &NewRun) -> (r: Result<InsertRow, StoreError>)
    ensures
        r is Ok <==> run.duration_ms <= i64::MAX,
        r matches Ok(row) ==> {
            &&& row.kind == run.kind
            &&& row.host == run.host
            &&& row.duration_ms == run.duration_ms
            &&& row.detail == run.detail
        },
        r matches Err(e) ==> e == StoreError::DurationOutOfRange,
{
    if run.duration_ms > i64::MAX as u64 {
        return Err(StoreError::DurationOutOfRange);
    }
    Ok(InsertRow {
        kind: run.kind.clone(),
        host: run.host.clone(),
        duration_ms: run.duration_ms as i64,
        detail: run.detail.clone(),
    })
}

/// Law: a stored detail that is not JSON is shown as JSON `null`, and
/// one that is JSON is shown as its compact text.
pub proof fn law_corrupt_detail_is_null(stored: Seq<char>)
    ensures
        json_canonical(stored) is None ==> detail_shown(json_canonical(stored)) == "null"@,
        json_canonical(stored) matches Some(j) ==> detail_shown(json_canonical(stored)) == j,
{
}

/// Law: a parsed detail is shown as its text, a failed parse as JSON
/// `null`.
pub proof fn law_detail_shown(parsed: Option<String>)
    ensures
        parsed matches Some(j) ==> detail_shown(opt_string_view(parsed)) == j@,
        parsed is None ==> detail_shown(opt_string_view(parsed)) == "null"@,
{
}

} // verus!

//! The decisions of the HTTP handlers: which requests are accepted,
//! and what each outcome is answered with. The handlers themselves,
//! which await the mapper and speak HTTP, stand outside this crate
//! and follow these functions.

use vstd::prelude::*;
use vstd::utf8::encode_utf8;

use crate::format::{mime_of, opt_view, requested_format, Format};
use crate::model::NewRun;

verus! {

/// Window, in days, shown by the daily trends table.
pub const REPORT_DAYS: u32 = 14;

/// Longest accepted `kind`, in bytes of UTF-8.
pub const MAX_KIND_LEN: usize = 64;

/// Longest accepted `host`, in bytes of UTF-8.
pub const MAX_HOST_LEN: usize = 128;

/// HTTP 200 OK.
pub const STATUS_OK: u16 = 200;

/// HTTP 202 Accepted.
pub const STATUS_ACCEPTED: u16 = 202;

/// HTTP 400 Bad Request.
pub const STATUS_BAD_REQUEST: u16 = 400;

/// HTTP 500 Internal Server Error.
pub const STATUS_INTERNAL_ERROR: u16 = 500;

/// An HTTP answer: status, `Content-Type` when there is a body that
/// needs one, and the body.
#[derive(Clone, Debug, PartialEq, Eq)]
pub struct Reply {
    pub status: u16,
    pub content_type: Option<&'static str>,
    pub body: String,
}

/// The length of `s` in bytes of UTF-8, which `str::len` reports.
pub open spec fn utf8_len(s: Seq<char>) -> nat {
    encode_utf8(s).len()
}

/// A reported run is accepted when its kind and host are present and
/// not over their length limits.
pub open spec fn acceptable_run(run: NewRun) -> bool {
    &&& run.kind@.len() > 0
    &&& utf8_len(run.kind@) <= MAX_KIND_LEN
    &&& run.host@.len() > 0
    &&& utf8_len(run.host@) <= MAX_HOST_LEN
}

/// Whether the run may be queued for storing.
pub fn is_acceptable(run: &NewRun) -> (ok: bool)
    ensures
        ok == acceptable_run(*run),
{
    let kind = run.kind.as_str();
    let host = run.host.as_str();
    let kind_len = kind.as_bytes().len();
    let host_len = host.as_bytes().len();
    !(kind.is_empty() || kind_len > MAX_KIND_LEN || host.is_empty() || host_len > MAX_HOST_LEN)
}

/// What `POST /run` does with a report before anything is queued.
pub enum RecordStep {
    /// Answer at once; nothing is queued.
    Reject(Reply),
    /// Queue the run for the mapper thread, then answer with
    /// [`queued_reply`].
    Enqueue,
}

/// The answer to a refused report.
pub open spec fn rejection(r: Reply) -> bool {
    &&& r.status == STATUS_BAD_REQUEST
    &&& r.content_type matches Some(t) && t@ == "text/plain; charset=utf-8"@
    &&& r.body@ == "kind and host are required"@
}

/// `POST /run`, first step: a run without a kind or host, or with one
/// over its limit, is answered 400; any other is queued.
pub fn record_step(run: &NewRun) -> (s: RecordStep)
    ensures
        s is Enqueue <==> acceptable_run(*run),
        s matches RecordStep::Reject(r) ==> rejection(r),
{
    if is_acceptable(run) {
        RecordStep::Enqueue
    } else {
        RecordStep::Reject(
            Reply {
                status: STATUS_BAD_REQUEST,
                content_type: Some("text/plain; charset=utf-8"),
                body: "kind and host are required".to_owned(),
            },
        )
    }
}

/// An answer with a status and no body.
pub open spec fn bare(r: Reply, status: u16) -> bool {
    &&& r.status == status
    &&& r.content_type is None
    &&& r.body@.len() == 0
}

/// An answer with no body: the status alone.
pub fn status_only(status: u16) -> (r: Reply)
    ensures
        bare(r, status),
{
    Reply { status, content_type: None, body: String::new() }
}

/// `POST /run`, second step: 202 when the run was handed to the
/// mapper (queued, not yet stored), 500 when the mapper is gone.
pub fn queued_reply(sent: bool) -> (r: Reply)
    ensures
        sent ==> bare(r, STATUS_ACCEPTED),
        !sent ==> bare(r, STATUS_INTERNAL_ERROR),
{
    if sent {
        status_only(STATUS_ACCEPTED)
    } else {
        status_only(STATUS_INTERNAL_ERROR)
    }
}

/// `GET /run`, last step: the report's body in the negotiated format
/// is served 200 with that format's MIME type; when there is no body
/// (the report could not be fetched or written) the answer is 500.
pub fn report_reply(format: Format, body: Option<String>) -> (r: Reply)
    ensures
        body is None ==> bare(r, STATUS_INTERNAL_ERROR),
        body matches Some(b) ==> {
            &&& r.status == STATUS_OK
            &&& r.content_type matches Some(t) && t@ == mime_of(format)
            &&& r.body == b
        },
{
    match body {
        Some(b) => Reply { status: STATUS_OK, content_type: Some(format.content_type()), body: b },
        None => status_only(STATUS_INTERNAL_ERROR),
    }
}

/// What `GET /run` does once the mapper has been asked for the
/// report.
pub enum RunStep {
    /// Answer at once.
    Answer(Reply),
    /// Write the report in this format, then answer with
    /// [`report_reply`].
    Serve(Format),
}

/// `GET /run`, first step: when the report could not be fetched (the
/// mapper is gone, or it failed to read) the answer is 500; otherwise
/// the report is served in the format the path and `Accept` value ask
/// for.
pub fn run_step(fetched: bool, path: &str, accept: Option<&str>) -> (s: RunStep)
    ensures
        !fetched ==> (s matches RunStep::Answer(r) && bare(r, STATUS_INTERNAL_ERROR)),
        fetched ==> (s matches RunStep::Serve(f) && f == requested_format(path@, opt_view(accept))),
{
    if fetched {
        RunStep::Serve(Format::negotiate(path, accept))
    } else {
        RunStep::Answer(status_only(STATUS_INTERNAL_ERROR))
    }
}

/// Law: a run is accepted exactly when its kind is non-empty and at
/// most 64 bytes of UTF-8 and its host is non-empty and at most 128
/// bytes of UTF-8, whatever characters they hold.
pub proof fn law_acceptance_is_presence_and_byte_limits(run: NewRun)
    ensures
        acceptable_run(run) <==> (run.kind@.len() > 0 && encode_utf8(run.kind@).len() <= 64
            && run.host@.len() > 0 && encode_utf8(run.host@).len() <= 128),
{
}

/// Law: a bare answer is the status with no `Content-Type` and an
/// empty body; a rejection is 400, `text/plain; charset=utf-8`, "kind
/// and host are required".
pub proof fn law_answer_shapes(r: Reply, status: u16)
    ensures
        bare(r, status) <==> (r.status == status && r.content_type is None && r.body@.len() == 0),
        rejection(r) <==> (r.status == 400 && (r.content_type matches Some(t) && t@
            == "text/plain; charset=utf-8"@) && r.body@ == "kind and host are required"@),
        STATUS_OK == 200 && STATUS_ACCEPTED == 202 && STATUS_BAD_REQUEST == 400
            && STATUS_INTERNAL_ERROR == 500,
{
}

} // verus!

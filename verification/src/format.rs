//! Content negotiation: which representation a request wants. The
//! path extension is canonical (`/run.json`); `Accept:
//! application/json` is a courtesy fallback. HTML is the default.

use vstd::prelude::*;

use crate::text::{contains, ends_with, has_infix, has_suffix};

verus! {

/// The two representations the report is served in.
#[derive(Clone, Copy, PartialEq, Eq, Debug, Structural)]
pub enum Format {
    Html,
    Json,
}

/// The representation asked for by a request path and an optional
/// `Accept` header value: a trailing `.json` on the path wins outright,
/// then an `Accept` value mentioning `application/json`, else HTML.
pub open spec fn requested_format(path: Seq<char>, accept: Option<Seq<char>>) -> Format {
    if has_suffix(path, ".json"@) {
        Format::Json
    } else if accept matches Some(a) && has_infix(a, "application/json"@) {
        Format::Json
    } else {
        Format::Html
    }
}

/// The view of an optional string slice.
pub open spec fn opt_view(s: Option<&str>) -> Option<Seq<char>> {
    match s {
        Some(a) => Some(a@),
        None => None,
    }
}

/// The MIME type of each representation.
pub open spec fn mime_of(f: Format) -> Seq<char> {
    match f {
        Format::Html => "text/html; charset=utf-8"@,
        Format::Json => "application/json"@,
    }
}

impl Format {
    /// Resolve the requested format from a request path and optional
    /// `Accept` header value. HTML unless something asked for JSON.
    pub fn negotiate(path: &str, accept: Option<&str>) -> (f: Format)
        ensures
            f == requested_format(path@, opt_view(accept)),
    {
        if ends_with(path, ".json") {
            return Format::Json;
        }
        match accept {
            Some(a) => {
                if contains(a, "application/json") {
                    return Format::Json;
                }
            },
            None => {},
        }
        Format::Html
    }

    /// The MIME type for this representation, for the response
    /// `Content-Type`.
    pub fn content_type(self) -> (m: &'static str)
        ensures
            m@ == mime_of(self),
    {
        match self {
            Format::Html => "text/html; charset=utf-8",
            Format::Json => "application/json",
        }
    }
}

/// Law: a path ending in `.json` is answered in JSON whatever the
/// `Accept` header says.
pub proof fn law_extension_wins(path: Seq<char>, accept: Option<Seq<char>>)
    requires
        has_suffix(path, ".json"@),
    ensures
        requested_format(path, accept) == Format::Json,
        mime_of(requested_format(path, accept)) == "application/json"@,
{
}

/// Law: without the extension, the `Accept` header decides, and
/// anything that does not mention `application/json` (or no header at
/// all) gets HTML.
pub proof fn law_accept_is_fallback(path: Seq<char>, accept: Option<Seq<char>>)
    requires
        !has_suffix(path, ".json"@),
    ensures
        requested_format(path, accept) == Format::Json <==> (accept matches Some(a) && has_infix(
            a,
            "application/json"@,
        )),
        accept is None ==> requested_format(path, accept) == Format::Html,
{
}

/// Law: the MIME type served for each representation.
pub proof fn law_mime_types()
    ensures
        mime_of(Format::Html) == "text/html; charset=utf-8"@,
        mime_of(Format::Json) == "application/json"@,
{
}

} // verus!

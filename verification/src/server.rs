//! One request/response exchange, end to end.
//!
//! [`serve`] is the whole pipeline against an in-memory filesystem: parse
//! the request, resolve the path, format the outcome. [`Response`] is the
//! record of one completed exchange that the connection handler hands to
//! its log.

use crate::fsmodel::resolve_in;
use crate::fsmodel::resolve_path;
use crate::fsmodel::FsModel;
use crate::fsmodel::FsNodeView;
use crate::request::parse_get_request;
use crate::request::parse_req;
use crate::resolve::MAX_DEPTH;
use crate::response::byte_len;
use crate::response::format_response;
use crate::response::outcome_of_resolution;
use crate::response::outcome_of_resolution_view;
use crate::response::response_text;
use crate::response::status_code;
use crate::response::status_code_of;
use crate::response::text_byte_len;
use crate::response::Outcome;
use crate::response::OutcomeView;
use vstd::prelude::*;

verus! {

/// Summary of one completed exchange, for the log: the status code sent,
/// the raw request text, the byte size of a served body (zero for the
/// error outcomes), and the time of the exchange in seconds since the Unix
/// epoch, as the caller measured it.
pub struct Response {
    pub status_code: usize,
    pub request: String,
    pub response_size: usize,
    pub time: u64,
}

/// The logged size of an outcome: a served body's byte length, else zero.
pub open spec fn response_size_of(o: OutcomeView) -> nat {
    match o {
        OutcomeView::Served { body, .. } => byte_len(body),
        _ => 0,
    }
}

impl Response {
    /// Summarizes an exchange that ended in `outcome` at `time`.
    pub fn new(request: String, outcome: &Outcome, time: u64) -> (r: Response)
        ensures
            r.status_code as int == status_code_of(outcome@),
            r.request == request,
            r.response_size as nat == response_size_of(outcome@),
            r.time == time,
    {
        let size: usize = match outcome {
            Outcome::Served { body, .. } => text_byte_len(body),
            _ => 0,
        };
        Response { status_code: status_code(outcome), request, response_size: size, time }
    }
}

/// The full response text owed for `request` against the filesystem `fs`:
/// the bad-request line when the request does not parse, else the wire
/// form of resolving the parsed path.
pub open spec fn serve_text(fs: Map<Seq<char>, FsNodeView>, request: Seq<char>) -> Seq<char> {
    match parse_req(request) {
        None => response_text(OutcomeView::BadRequest),
        Some(path) => response_text(
            outcome_of_resolution_view(resolve_path(fs, path, MAX_DEPTH as nat)),
        ),
    }
}

/// Handles one request against the filesystem model `fs`: parse, resolve,
/// format.
pub fn serve(fs: &FsModel, request: &str) -> (r: String)
    ensures
        r@ == serve_text(fs@, request@),
{
    match parse_get_request(request) {
        None => format_response(&Outcome::BadRequest),
        Some(path) => {
            let res = resolve_in(fs, &path);
            let o = outcome_of_resolution(res);
            format_response(&o)
        },
    }
}

} // verus!

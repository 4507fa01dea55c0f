//! The decisions of the per-connection worker pipeline.
//!
//! One worker runs per accepted connection, as an isolated unit linked to
//! the acceptor; its pipeline is strictly sequential: parse, dispatch,
//! finalize, write. The reading and writing are I/O and stay outside the
//! library; the functions here take their outcomes as plain values and
//! decide what is sent.

use crate::response::{finalize, HttpVersion, Response};
use crate::render::dec_chars;
use vstd::prelude::*;
use vstd::string::StrSliceExecFns;
use vstd::utf8::encode_utf8;

verus! {

/// What the transport parser reported when the inbound byte stream was
/// not a request: enough to synthesize a best-effort error response.
#[derive(Debug)]
pub struct ParseFailure {
    pub status: u16,
    pub message: String,
}

/// What the dispatch entry point yielded for a parsed request.
#[derive(Debug)]
pub enum DispatchOutcome {
    /// A matched route ran to completion.
    Success(Response),
    /// An extractor failed; the route rendered the rejection itself.
    ExtractorFailed(Response),
    /// No route matched the request.
    NoRouteMatched,
}

/// The response synthesized from a parse failure. It ends the connection
/// without invoking dispatch and is written as it is, unfinalized.
pub fn parse_failure_response(failure: ParseFailure) -> (r: Response)
    ensures
        r.status == failure.status,
        r.body@ == encode_utf8(failure.message@),
        r.headers@.len() == 0,
        r.version == HttpVersion::Http11,
{
    Response {
        status: failure.status,
        version: HttpVersion::Http11,
        headers: Vec::new(),
        body: failure.message.as_str().as_bytes_vec(),
    }
}

/// The response of a dispatch outcome: a route's own response passes
/// through, an extractor failure was already rendered by the dispatch
/// layer, and an unmatched request becomes the fixed not-found response.
pub fn dispatch_response(outcome: DispatchOutcome) -> (r: Response)
    ensures
        outcome matches DispatchOutcome::Success(resp) ==> r == resp,
        outcome matches DispatchOutcome::ExtractorFailed(resp) ==> r == resp,
        outcome matches DispatchOutcome::NoRouteMatched ==> r.status == 404 && r.body@
            == encode_utf8("404 Not Found"@) && r.headers@.len() == 0 && r.version
            == HttpVersion::Http11,
{
    match outcome {
        DispatchOutcome::Success(resp) => resp,
        DispatchOutcome::ExtractorFailed(resp) => resp,
        DispatchOutcome::NoRouteMatched => Response {
            status: 404,
            version: HttpVersion::Http11,
            headers: Vec::new(),
            body: "404 Not Found".as_bytes_vec(),
        },
    }
}

/// The response a worker writes for a dispatched request: the dispatch
/// outcome's response, finalized with a Content-Length equal to its body
/// byte length and the inbound request's protocol version.
pub fn worker_respond(outcome: DispatchOutcome, version: HttpVersion) -> (r: Response)
    ensures
        r.version == version,
        r.headers@.last().0@ == "Content-Length"@,
        r.headers@.last().1@ == dec_chars(r.body@.len() as nat),
        outcome matches DispatchOutcome::Success(resp) ==> r.status == resp.status && r.body@
            == resp.body@ && r.headers@.len() == resp.headers@.len() + 1 && (forall|j: int|
            0 <= j < resp.headers@.len() ==> r.headers@[j] == resp.headers@[j]),
        outcome matches DispatchOutcome::ExtractorFailed(resp) ==> r.status == resp.status
            && r.body@ == resp.body@ && r.headers@.len() == resp.headers@.len() + 1 && (
        forall|j: int| 0 <= j < resp.headers@.len() ==> r.headers@[j] == resp.headers@[j]),
        outcome matches DispatchOutcome::NoRouteMatched ==> r.status == 404 && r.body@
            == encode_utf8("404 Not Found"@) && r.headers@.len() == 1,
{
    let mut resp = dispatch_response(outcome);
    finalize(&mut resp, version);
    resp
}

/// Take the request body out of the request, leaving it empty: body
/// extraction consumes the body.
pub fn take_body(body: &mut Vec<u8>) -> (r: Vec<u8>)
    ensures
        r@ == old(body)@,
        final(body)@ == Seq::<u8>::empty(),
{
    let mut taken: Vec<u8> = Vec::new();
    std::mem::swap(body, &mut taken);
    proof {
        assert(body@ =~= Seq::<u8>::empty());
    }
    taken
}

} // verus!

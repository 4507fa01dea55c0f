//! The outbound response model and its finalisation.
//!
//! Every response the core emits gets its Content-Length header appended
//! (never silently replaced), equal to the exact byte length of its body,
//! and carries the inbound request's protocol version.

use crate::errors::FailedToDeserializePathParams;
use crate::render::{dec_chars, spec_body, spec_status, usize_to_string};
use vstd::prelude::*;
use vstd::string::{StrSliceExecFns, StringExecFns};
use vstd::utf8::encode_utf8;

verus! {

/// The protocol version a request arrived with, copied onto its response.
#[derive(Clone, Copy, Debug, PartialEq, Eq, Structural)]
pub enum HttpVersion {
    Http09,
    Http10,
    Http11,
    Http2,
    Http3,
}

/// An outbound response: a status, a header set, a protocol version, and
/// a byte body.
#[derive(Debug)]
pub struct Response {
    pub status: u16,
    pub version: HttpVersion,
    pub headers: Vec<(String, String)>,
    pub body: Vec<u8>,
}

impl FailedToDeserializePathParams {
    /// Render this rejection: kinds reporting malformed client input
    /// become a 400 whose body carries the "Invalid URL: " prefix, the
    /// kinds reporting server-side misconfiguration a 500 with the bare
    /// text.
    pub fn into_response(self) -> (r: Response)
        ensures
            r.status as int == spec_status(self@),
            r.body@ == encode_utf8(spec_body(self@)),
            r.headers@.len() == 0,
            r.version == HttpVersion::Http11,
    {
        let is_client = self.0.kind.is_client();
        let msg = self.0.kind.message();
        let status: u16 = if is_client {
            400
        } else {
            500
        };
        let body_text = if is_client {
            let mut s = String::from_str("Invalid URL: ");
            s.append(msg.as_str());
            s
        } else {
            msg
        };
        Response {
            status,
            version: HttpVersion::Http11,
            headers: Vec::new(),
            body: body_text.as_str().as_bytes_vec(),
        }
    }
}

/// Finalize `response` before it is written: recompute Content-Length
/// from the actual body byte length and append it (never replacing an
/// existing header), and copy the inbound request's protocol version.
pub fn finalize(response: &mut Response, version: HttpVersion)
    ensures
        final(response).status == old(response).status,
        final(response).body@ == old(response).body@,
        final(response).version == version,
        final(response).headers@.len() == old(response).headers@.len() + 1,
        forall|j: int|
            0 <= j < old(response).headers@.len() ==> final(response).headers@[j] == old(
                response,
            ).headers@[j],
        final(response).headers@.last().0@ == "Content-Length"@,
        final(response).headers@.last().1@ == dec_chars(old(response).body@.len() as nat),
{
    let value = usize_to_string(response.body.len());
    response.headers.push((String::from_str("Content-Length"), value));
    response.version = version;
}

} // verus!

//! Decoding one raw capture value: percent-decoding followed by UTF-8
//! validation.
//!
//! The raw value is itself text (the router captured it out of the request
//! path), but its percent-escapes may name arbitrary bytes, so the decoded
//! byte sequence must be checked before it is text again.

use crate::percent::{percent_decode, percent_decoded};
use vstd::prelude::*;
use vstd::utf8::{decode_utf8, valid_utf8};

verus! {

/// The percent-decoded bytes of a raw capture value.
pub open spec fn decoded_bytes(raw: Seq<char>) -> Seq<u8> {
    percent_decoded(vstd::utf8::encode_utf8(raw))
}

/// True when the percent-decoded bytes of `raw` are valid UTF-8.
pub open spec fn decodes_cleanly(raw: Seq<char>) -> bool {
    valid_utf8(decoded_bytes(raw))
}

/// The decoded text of `raw`, when its bytes decode cleanly.
pub open spec fn decoded_chars(raw: Seq<char>) -> Seq<char> {
    decode_utf8(decoded_bytes(raw))
}

/// Relies on `String::from_utf8`: it succeeds exactly on valid UTF-8 input
/// and returns the string those bytes encode.
#[verifier::external_body]
fn utf8_to_string(bytes: Vec<u8>) -> (r: Option<String>)
    ensures
        r is Some <==> valid_utf8(bytes@),
        r matches Some(s) ==> s@ == decode_utf8(bytes@),
{
    String::from_utf8(bytes).ok()
}

/// Percent-decode `raw` and require the result to be valid UTF-8; `None`
/// reports the invalid-UTF-8 failure that short-circuits extraction.
pub fn decoded_value(raw: &String) -> (r: Option<String>)
    ensures
        r is Some <==> decodes_cleanly(raw@),
        r matches Some(s) ==> s@ == decoded_chars(raw@),
{
    let bytes = percent_decode(raw.as_str().as_bytes());
    utf8_to_string(bytes)
}

} // verus!

//! The echo route as a free function over a target path alone, for callers
//! that have no parsed request at hand.

use vstd::prelude::*;
use crate::http::request::spec_response_with;
use crate::http::request::spec_echo_body;
use crate::strutil::split_char;
use crate::http::request::build_response;

verus! {

/// Answers a target under the `/echo` route: the single segment after
/// `/echo` becomes the body, any other segment count the fixed fallback.
/// No headers are at hand here, so no content encoding is advertised.
pub fn handle_echo(target_path: &str) -> (r: String)
    ensures
        r@ == spec_response_with(
            "HTTP/1.1 200 OK"@,
            "text/plain"@,
            false,
            spec_echo_body(target_path@),
        ),
{
    let parts = split_char(target_path, '/');
    if parts.len() == 3 {
        proof {
            assert(parts.deep_view()[2] == parts@[2]@);
        }
        build_response("HTTP/1.1 200 OK", "text/plain", false, parts[2].as_str())
    } else {
        build_response("HTTP/1.1 200 OK", "text/plain", false, "test")
    }
}

} // verus!

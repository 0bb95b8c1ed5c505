//! Who may use the HTTP interface.
//!
//! The liveness probe, the status, and the endpoints with which handles are
//! reserved, claimed and looked up are open to everyone.
use vstd::prelude::*;

use crate::basic_auth::{
    challenge_header, check, credentials_view, passes, path_segments, Challenge, Credentials,
};
use crate::text::{list_view, opt_str_view, segments_on, text_eq};

verus! {

/// Whether a request, by the parts of its path, is open to everyone.
pub open spec fn open_parts(method: Seq<char>, parts: Seq<Seq<char>>) -> bool {
    let get = method == "GET"@;
    let post = method == "POST"@;
    if parts.len() == 1 {
        (get && (parts[0] == "health"@ || parts[0] == "status"@)) || (post && (parts[0]
            == "requests"@ || parts[0] == "reserve"@ || parts[0] == "claim"@))
    } else if parts.len() == 2 {
        get && parts[0] == "certs"@
    } else if parts.len() == 4 {
        get && parts[0] == "spaces"@ && parts[2] == "handles"@
    } else {
        false
    }
}

/// Whether a request is open to everyone.
pub open spec fn anonymous(method: Seq<char>, path: Seq<char>) -> bool {
    open_parts(method, segments_on(path, '/'))
}

/// Whether a request is open to everyone.
pub fn is_anonymous(method: &str, path: &str) -> (open: bool)
    ensures
        open == anonymous(method@, path@),
{
    let get = text_eq(method, "GET");
    let post = text_eq(method, "POST");
    let parts = path_segments(path);
    assert(forall|i: int|
        0 <= i < parts@.len() ==> list_view(parts@)[i] == (#[trigger] parts@[i])@);
    if parts.len() == 1 {
        let part = parts[0].as_str();
        (get && (text_eq(part, "health") || text_eq(part, "status"))) || (post && (text_eq(
            part,
            "requests",
        ) || text_eq(part, "reserve") || text_eq(part, "claim")))
    } else if parts.len() == 2 {
        get && text_eq(parts[0].as_str(), "certs")
    } else if parts.len() == 4 {
        get && text_eq(parts[0].as_str(), "spaces") && text_eq(parts[2].as_str(), "handles")
    } else {
        false
    }
}

/// Lets a request through or challenges it.
pub fn require_basic_auth(
    credentials: &Option<Credentials>,
    method: &str,
    path: &str,
    header: Option<&str>,
) -> (pass: Result<(), Challenge>)
    ensures
        pass is Ok <==> passes(
            credentials_view(*credentials),
            method@,
            anonymous(method@, path@),
            opt_str_view(header),
        ),
        pass matches Err(c) ==> c.status == 401 && c.authenticate@ == challenge_header("subs"@)
            && c.body@ == "Unauthorized"@,
{
    check(credentials, "subs", method, is_anonymous(method, path), header)
}

/// Only reading and the three ways of submitting a handle are open to everyone.
pub proof fn lemma_open_requests_read_or_submit(method: Seq<char>, path: Seq<char>)
    requires
        anonymous(method, path),
    ensures
        method == "GET"@ || method == "POST"@,
        method != "GET"@ ==> segments_on(path, '/').len() == 1,
{
}

} // verus!

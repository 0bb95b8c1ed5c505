//! Who may use the prover's server.
//!
//! Only the liveness probe is open to everyone.
use vstd::prelude::*;

use crate::basic_auth::{
    challenge_header, check, credentials_view, passes, path_segments, Challenge, Credentials,
};
use crate::text::{list_view, opt_str_view, segments_on, text_eq};

verus! {

/// Whether a request is open to everyone: `GET /health`.
pub open spec fn anonymous(method: Seq<char>, path: Seq<char>) -> bool {
    method == "GET"@ && segments_on(path, '/') == seq!["health"@]
}

/// Whether a request is open to everyone.
pub fn is_anonymous(method: &str, path: &str) -> (open: bool)
    ensures
        open == anonymous(method@, path@),
{
    let parts = path_segments(path);
    let one = parts.len() == 1 && text_eq(parts[0].as_str(), "health");
    proof {
        assert(list_view(parts@).len() == parts@.len());
        if one {
            assert(list_view(parts@)[0] == parts@[0]@);
            assert(segments_on(path@, '/') =~= seq!["health"@]);
        }
        if segments_on(path@, '/') == seq!["health"@] {
            assert(segments_on(path@, '/').len() == 1);
            assert(segments_on(path@, '/')[0] == "health"@);
            assert(list_view(parts@)[0] == parts@[0]@);
        }
    }
    one && text_eq(method, "GET")
}

/// Lets a request through or challenges it.
pub fn require_basic_auth(
    credentials: &Option<Credentials>,
    method: &str,
    path: &str,
    header: Option<&str>,
) -> (pass: Result<(), Challenge>)
    ensures
        pass is Ok <==> passes(
            credentials_view(*credentials),
            method@,
            anonymous(method@, path@),
            opt_str_view(header),
        ),
        pass matches Err(c) ==> c.status == 401 && c.authenticate@ == challenge_header(
            "subs-prover"@,
        ) && c.body@ == "Unauthorized"@,
{
    check(credentials, "subs-prover", method, is_anonymous(method, path), header)
}

} // verus!

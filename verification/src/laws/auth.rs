//! Who may use the servers.
use vstd::prelude::*;
use vstd::utf8::*;

use crate::adapters::base64_bytes;
use crate::basic_auth::{challenge_header, passes, presented, presents};
use crate::prover::auth as prover_auth;
use crate::routes::auth;
use crate::text::{has_prefix, segments_on, trimmed};

verus! {

/// Credentials stand behind `Basic` or `basic` and a blank, with blanks around them that do not
/// count; any other header presents none.
pub proof fn lemma_headers_hold_credentials(encoded: Seq<char>, header: Seq<char>)
    requires
        !(exists|r: Seq<char>| header == #[trigger] ("Basic "@ + r)),
        !(exists|r: Seq<char>| header == #[trigger] ("basic "@ + r)),
    ensures
        presented(Some("Basic "@ + encoded)) == Some(trimmed(encoded)),
        presented(Some("basic "@ + encoded)) == Some(trimmed(encoded)),
        presented(Some(header)) is None,
        presented(None) is None,
{
    reveal_strlit("Basic ");
    reveal_strlit("basic ");
    let upper = "Basic "@ + encoded;
    let lower = "basic "@ + encoded;
    assert(upper.take(6) =~= "Basic "@);
    assert(upper.skip(6) =~= encoded);
    assert(lower.take(6) =~= "basic "@);
    assert(lower.skip(6) =~= encoded);
    assert(lower.take(6)[0] != "Basic "@[0]);
    if has_prefix(header, "Basic "@) {
        assert(header =~= "Basic "@ + header.skip(6));
    }
    if has_prefix(header, "basic "@) {
        assert(header =~= "basic "@ + header.skip(6));
    }
}

/// A header presents a user exactly where its credentials decode to the name, a colon and the
/// password.
pub proof fn lemma_credentials_are_decoded(
    header: Option<Seq<char>>,
    user: Seq<char>,
    pass: Seq<char>,
)
    ensures
        presents(header, user, pass) <==> presented(header) is Some && base64_bytes(
            presented(header)->Some_0,
        ) is Ok && base64_bytes(presented(header)->Some_0)->Ok_0 == encode_utf8(
            user + ":"@ + pass,
        ),
{
}

/// Where credentials are configured, a request passes only as a preflight request, at an open
/// endpoint, or with these credentials; without any, all pass.
pub proof fn lemma_who_passes(
    user: Seq<char>,
    pass: Seq<char>,
    method: Seq<char>,
    open: bool,
    header: Option<Seq<char>>,
)
    ensures
        passes(Some((user, pass)), method, open, header) <==> method == "OPTIONS"@ || open
            || presents(header, user, pass),
        passes(None, method, open, header),
{
}

/// The challenge names the realm.
pub proof fn lemma_challenges_name_the_realm(realm: Seq<char>)
    ensures
        challenge_header(realm) == "Basic realm=\""@ + realm + "\", charset=\"UTF-8\""@,
{
}

/// Open to everyone are exactly: reading the health page, the status, the certificate of a handle
/// and a handle of a space, and posting requests, reservations and claims.
pub proof fn lemma_open_endpoints(method: Seq<char>, path: Seq<char>)
    ensures
        auth::anonymous(method, path) <==> ({
            let parts = segments_on(path, '/');
            ||| method == "GET"@ && parts.len() == 1 && parts[0] == "health"@
            ||| method == "GET"@ && parts.len() == 1 && parts[0] == "status"@
            ||| method == "POST"@ && parts.len() == 1 && parts[0] == "requests"@
            ||| method == "POST"@ && parts.len() == 1 && parts[0] == "reserve"@
            ||| method == "POST"@ && parts.len() == 1 && parts[0] == "claim"@
            ||| method == "GET"@ && parts.len() == 2 && parts[0] == "certs"@
            ||| method == "GET"@ && parts.len() == 4 && parts[0] == "spaces"@ && parts[2]
                == "handles"@
        }),
        prover_auth::anonymous(method, path) <==> method == "GET"@ && segments_on(path, '/').len()
            == 1 && segments_on(path, '/')[0] == "health"@,
{
    let parts = segments_on(path, '/');
    if parts.len() == 1 && parts[0] == "health"@ {
        assert(parts =~= seq!["health"@]);
    }
}

} // verus!

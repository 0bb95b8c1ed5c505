//! HTTP Basic authentication.
//!
//! Requests are only checked where credentials are configured. Preflight requests
//! and the endpoints that a server opens to everyone always pass.
use vstd::prelude::*;
use vstd::utf8::*;

use crate::adapters::{base64_bytes, base64_decode, base64_encode, base64_fits, base64_text};
use crate::text::{
    after_prefix, concatenated, is_not, is_space, joined, lemma_outer_separators_do_not_count,
    lemma_segments_are_plain, lemma_segments_hold_the_rest, lemma_segments_round_trip, list_view,
    opt_str_view, result_view, segments, segments_on, strip_prefix, text_eq, trim, trimmed,
    without_leading, without_trailing,
};

verus! {

/// The non-empty parts of a path between its slashes.
pub fn path_segments(path: &str) -> (parts: Vec<String>)
    ensures
        list_view(parts@) == segments_on(path@, '/'),
{
    segments(path, '/')
}

/// What holds of the parts of a path: none is empty or holds a slash; one behind the
/// other they are the path without its slashes; slashes in front of the path and behind
/// it change nothing; and joined by slashes they have the same parts again.
pub proof fn lemma_path_segments(lead: Seq<char>, path: Seq<char>, trail: Seq<char>)
    requires
        forall|i: int| 0 <= i < lead.len() ==> #[trigger] lead[i] == '/',
        forall|i: int| 0 <= i < trail.len() ==> #[trigger] trail[i] == '/',
    ensures
        forall|i: int|
            0 <= i < segments_on(path, '/').len() ==> (#[trigger] segments_on(path, '/')[i]).len()
                > 0 && !segments_on(path, '/')[i].contains('/'),
        concatenated(segments_on(path, '/')) == path.filter(is_not('/')),
        segments_on(lead + path + trail, '/') == segments_on(path, '/'),
        segments_on(joined(segments_on(path, '/'), '/'), '/') == segments_on(path, '/'),
{
    lemma_segments_are_plain(path, '/');
    lemma_segments_hold_the_rest(path, '/');
    lemma_outer_separators_do_not_count(lead, path, trail, '/');
    lemma_segments_round_trip(path, '/');
}

/// Whether two byte strings are the same.
///
/// The time that this takes depends on the lengths alone.
pub fn constant_time_eq(a: &[u8], b: &[u8]) -> (same: bool)
    ensures
        same == (a@ == b@),
{
    if a.len() != b.len() {
        return false;
    }
    let n: usize = a.len();
    let mut diff: u8 = 0;
    let mut i: usize = 0;
    assert(a@.take(0) =~= b@.take(0));
    while i < n
        invariant
            n == a@.len() == b@.len(),
            i <= n,
            diff == 0 <==> a@.take(i as int) == b@.take(i as int),
        decreases n - i,
    {
        let x: u8 = a[i];
        let y: u8 = b[i];
        let before: u8 = diff;
        diff = before | (x ^ y);
        assert(before | (x ^ y) == 0 <==> before == 0 && x == y) by (bit_vector);
        i = i + 1;
        assert(a@.take(i as int) =~= a@.take(i - 1).push(x));
        assert(b@.take(i as int) =~= b@.take(i - 1).push(y));
        proof {
            if a@.take(i as int) == b@.take(i as int) {
                assert(a@.take(i as int).drop_last() =~= a@.take(i - 1));
                assert(b@.take(i as int).drop_last() =~= b@.take(i - 1));
                assert(a@.take(i as int).last() == x);
                assert(b@.take(i as int).last() == y);
            }
        }
    }
    assert(a@.take(n as int) =~= a@);
    assert(b@.take(n as int) =~= b@);
    diff == 0
}

/// The bytes that the credentials of a user are encoded from.
pub open spec fn credential_bytes(user: Seq<char>, pass: Seq<char>) -> Seq<u8> {
    encode_utf8(user + ":"@ + pass)
}

/// The credentials in a header, still encoded.
pub open spec fn presented(header: Option<Seq<char>>) -> Option<Seq<char>> {
    match header {
        None => None,
        Some(h) => match after_prefix(h, "Basic "@) {
            Some(rest) => Some(trimmed(rest)),
            None => match after_prefix(h, "basic "@) {
                Some(rest) => Some(trimmed(rest)),
                None => None,
            },
        },
    }
}

/// A header presents the credentials of a user.
pub open spec fn presents(header: Option<Seq<char>>, user: Seq<char>, pass: Seq<char>) -> bool {
    presented(header) matches Some(encoded) && (base64_bytes(encoded) matches Ok(bytes) && bytes
        == credential_bytes(user, pass))
}

/// Whether what was decoded out of a header are the credentials of a user.
pub fn decoded_match(decoded: Result<Vec<u8>, String>, user: &str, pass: &str) -> (same: bool)
    ensures
        same == (result_view(decoded) matches Ok(bytes) && bytes == credential_bytes(user@, pass@)),
{
    match decoded {
        Err(_) => false,
        Ok(bytes) => {
            let expected = user.to_owned().concat(":").concat(pass);
            constant_time_eq(bytes.as_slice(), expected.as_str().as_bytes())
        },
    }
}

/// Whether a header presents the credentials of a user.
pub fn credentials_match(header: Option<&str>, user: &str, pass: &str) -> (same: bool)
    ensures
        same == presents(opt_str_view(header), user@, pass@),
{
    let value = match header {
        Some(value) => value,
        None => return false,
    };
    let encoded = match strip_prefix(value, "Basic ") {
        Some(encoded) => encoded,
        None => match strip_prefix(value, "basic ") {
            Some(encoded) => encoded,
            None => return false,
        },
    };
    decoded_match(base64_decode(trim(encoded)), user, pass)
}

/// What a request without the right credentials is answered with.
pub struct Challenge {
    pub status: u16,
    /// The `WWW-Authenticate` header.
    pub authenticate: String,
    pub body: String,
}

/// The header that asks for credentials.
pub open spec fn challenge_header(realm: Seq<char>) -> Seq<char> {
    "Basic realm=\""@ + realm + "\", charset=\"UTF-8\""@
}

/// What a request without the right credentials is answered with.
pub fn unauthorized(realm: &str) -> (challenge: Challenge)
    ensures
        challenge.status == 401,
        challenge.authenticate@ == challenge_header(realm@),
        challenge.body@ == "Unauthorized"@,
{
    Challenge {
        status: 401,
        authenticate: "Basic realm=\"".to_owned().concat(realm).concat("\", charset=\"UTF-8\""),
        body: "Unauthorized".to_owned(),
    }
}

/// A user's credentials.
pub struct Credentials {
    pub user: String,
    pub pass: String,
}

/// A request passes where no credentials are configured, where it is a preflight
/// request, where it is open to everyone, and where it presents the credentials.
pub open spec fn passes(
    credentials: Option<(Seq<char>, Seq<char>)>,
    method: Seq<char>,
    anonymous: bool,
    header: Option<Seq<char>>,
) -> bool {
    match credentials {
        None => true,
        Some((user, pass)) => method == "OPTIONS"@ || anonymous || presents(header, user, pass),
    }
}

/// The credentials as texts.
pub open spec fn credentials_view(credentials: Option<Credentials>) -> Option<
    (Seq<char>, Seq<char>),
> {
    match credentials {
        Some(c) => Some((c.user@, c.pass@)),
        None => None,
    }
}

/// Lets a request through or challenges it.
pub fn check(
    credentials: &Option<Credentials>,
    realm: &str,
    method: &str,
    anonymous: bool,
    header: Option<&str>,
) -> (pass: Result<(), Challenge>)
    ensures
        pass is Ok <==> passes(
            credentials_view(*credentials),
            method@,
            anonymous,
            opt_str_view(header),
        ),
        pass matches Err(c) ==> c.status == 401 && c.authenticate@ == challenge_header(realm@)
            && c.body@ == "Unauthorized"@,
{
    match credentials {
        None => Ok(()),
        Some(c) => {
            if text_eq(method, "OPTIONS") || anonymous || credentials_match(
                header,
                c.user.as_str(),
                c.pass.as_str(),
            ) {
                Ok(())
            } else {
                Err(unauthorized(realm))
            }
        },
    }
}

/// A text without blanks is not changed by trimming.
proof fn lemma_nothing_to_trim(s: Seq<char>)
    requires
        forall|i: int| 0 <= i < s.len() ==> !is_space(#[trigger] s[i]),
    ensures
        trimmed(s) == s,
{
    reveal_with_fuel(without_leading, 2);
    reveal_with_fuel(without_trailing, 2);
}

/// The header that presents credentials: the encoded text of `user:pass`, or any
/// other text of that form.
///
/// Presented to a server that expects these credentials, it is accepted.
pub fn basic_header(credentials: &str) -> (header: String)
    requires
        base64_fits(encode_utf8(credentials@).len()),
    ensures
        header@ == "Basic "@ + base64_text(encode_utf8(credentials@)),
        forall|user: Seq<char>, pass: Seq<char>|
            #![trigger credential_bytes(user, pass)]
            user + ":"@ + pass == credentials@ ==> presents(Some(header@), user, pass),
{
    let encoded = base64_encode(credentials.as_bytes());
    let header = "Basic ".to_owned().concat(encoded.as_str());
    proof {
        assert(header@.take("Basic "@.len() as int) =~= "Basic "@);
        assert(header@.skip("Basic "@.len() as int) =~= encoded@);
        lemma_nothing_to_trim(encoded@);
    }
    header
}

/// A header presents the credentials of one user only: as long as names hold no colon,
/// no other name or password passes with it.
pub proof fn lemma_a_header_presents_one_user(
    header: Option<Seq<char>>,
    user: Seq<char>,
    pass: Seq<char>,
    other_user: Seq<char>,
    other_pass: Seq<char>,
)
    requires
        presents(header, user, pass),
        presents(header, other_user, other_pass),
        !user.contains(':'),
        !other_user.contains(':'),
    ensures
        user == other_user,
        pass == other_pass,
{
    reveal_strlit(":");
    let a = user + ":"@ + pass;
    let b = other_user + ":"@ + other_pass;
    encode_utf8_decode_utf8(a);
    encode_utf8_decode_utf8(b);
    assert(a == b);
    assert(a[user.len() as int] == ':');
    assert(b[other_user.len() as int] == ':');
    if user.len() < other_user.len() {
        assert(b[user.len() as int] == other_user[user.len() as int]);
    }
    if other_user.len() < user.len() {
        assert(a[other_user.len() as int] == user[other_user.len() as int]);
    }
    assert(user =~= a.take(user.len() as int));
    assert(other_user =~= b.take(user.len() as int));
    assert(pass =~= a.skip(user.len() as int + 1));
    assert(other_pass =~= b.skip(user.len() as int + 1));
}

/// Without credentials nothing is checked, and preflight requests are never.
pub proof fn lemma_open_requests_pass(
    user: Seq<char>,
    pass: Seq<char>,
    method: Seq<char>,
    anonymous: bool,
    header: Option<Seq<char>>,
)
    ensures
        passes(None, method, anonymous, header),
        passes(Some((user, pass)), "OPTIONS"@, anonymous, header),
        passes(Some((user, pass)), method, true, header),
{
}

} // verus!

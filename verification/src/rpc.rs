//! The node that the operator talks to: how to authenticate to it, and what to make
//! of its wallet.
use vstd::prelude::*;
use vstd::utf8::*;

use crate::adapters::{base64_fits, base64_text};
use crate::basic_auth::basic_header;
use crate::text::{contains, has_substring, opt_str_view, opt_view, trim, trimmed};

verus! {

/// The credentials of a user: a missing password counts as empty.
pub open spec fn user_credentials(user: Seq<char>, password: Option<Seq<char>>) -> Seq<char> {
    user + ":"@ + match password {
        Some(p) => p,
        None => Seq::empty(),
    }
}

/// The header that presents some credentials.
pub open spec fn authorization(credentials: Seq<char>) -> Seq<char> {
    "Basic "@ + base64_text(encode_utf8(credentials))
}

/// Credentials that can be encoded.
pub open spec fn encodable(credentials: Seq<char>) -> bool {
    base64_fits(encode_utf8(credentials).len())
}

/// The header that presents a user.
pub fn user_authorization(user: &str, password: Option<&str>) -> (header: String)
    requires
        encodable(user_credentials(user@, opt_str_view(password))),
    ensures
        header@ == authorization(user_credentials(user@, opt_str_view(password))),
{
    let password = match password {
        Some(p) => p,
        None => "",
    };
    proof {
        reveal_strlit("");
        assert(""@ =~= Seq::empty());
    }
    let credentials = user.to_owned().concat(":").concat(password);
    basic_header(credentials.as_str())
}

/// The header that presents what a cookie file holds, but for the blanks around it.
pub fn cookie_authorization(cookie: &str) -> (header: String)
    requires
        encodable(trimmed(cookie@)),
    ensures
        header@ == authorization(trimmed(cookie@)),
{
    basic_header(trim(cookie))
}

/// How to authenticate to the node.
pub enum RpcAuth {
    /// With this header.
    Header(String),
    /// With what the cookie file holds.
    Cookie(String),
    /// Not at all.
    Open,
}

/// A user counts before a cookie file.
pub fn build_rpc_client(
    rpc_user: Option<&str>,
    rpc_password: Option<&str>,
    rpc_cookie: Option<&str>,
) -> (auth: RpcAuth)
    requires
        rpc_user matches Some(user) ==> encodable(
            user_credentials(user@, opt_str_view(rpc_password)),
        ),
    ensures
        match (opt_str_view(rpc_user), opt_str_view(rpc_cookie)) {
            (Some(user), _) => auth matches RpcAuth::Header(h) && h@ == authorization(
                user_credentials(user, opt_str_view(rpc_password)),
            ),
            (None, Some(path)) => auth matches RpcAuth::Cookie(p) && p@ == path,
            (None, None) => auth is Open,
        },
{
    match rpc_user {
        Some(user) => RpcAuth::Header(user_authorization(user, rpc_password)),
        None => match rpc_cookie {
            Some(path) => RpcAuth::Cookie(path.to_owned()),
            None => RpcAuth::Open,
        },
    }
}

/// What a failure to load a wallet comes to: nothing where it was loaded before.
pub fn wallet_load_failure(wallet: &str, error: &str) -> (failure: Option<String>)
    ensures
        opt_view(failure) == (if has_substring(error@, "already loaded"@) || has_substring(
            error@,
            "already exists"@,
        ) {
            None
        } else {
            Some("Failed to load wallet "@ + wallet@ + ": "@ + error@)
        }),
{
    if contains(error, "already loaded") || contains(error, "already exists") {
        None
    } else {
        Some("Failed to load wallet ".to_owned().concat(wallet).concat(": ").concat(error))
    }
}

/// The port of the relay of a test rig.
pub fn certrelay_port(port: u16) -> (relay: u16)
    requires
        port <= u16::MAX - 2,
    ensures
        relay == port + 2,
{
    port + 2
}

} // verus!

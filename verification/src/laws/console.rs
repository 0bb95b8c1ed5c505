//! Calls to the node, certificates, and what is logged of requests.
use vstd::prelude::*;
use vstd::utf8::*;

use crate::adapters::{base64_text, status_display, HandleNameView};
use crate::flow::{ActionView, ApiErrorView, EventView, HttpCallView, PayloadView, RpcBodyView};
use crate::laws::history::refused;
use crate::routes::certs::{message_file, named};
use crate::routes::console::{
    bitcoin_start, proxy_machine, spaced_start, ProxyStageView, ProxyStep, RpcReplyView,
};
use crate::routes::logging::{api_path, body_text, clipped, request_log};
use crate::rpc::{authorization, user_credentials};
use crate::text::{decimal, flattened, has_substring, trimmed};

verus! {

// ---------------------------------------------------------------------------
// The node
// ---------------------------------------------------------------------------

/// The call that passes a method and its parameters on, for at most thirty seconds.
pub open spec fn node_call(
    url: Seq<char>,
    method: Seq<char>,
    params: Seq<char>,
    authorization: Option<Seq<char>>,
) -> ActionView {
    ActionView::Send(
        HttpCallView {
            post: true,
            url,
            token: None,
            payload: PayloadView::Rpc { method, params, authorization },
            timeout: Some(30),
        },
    )
}

/// The header for a text of credentials.
pub open spec fn basic(credentials: Seq<char>) -> Seq<char> {
    "Basic "@ + base64_text(encode_utf8(credentials))
}

/// The name and the password of a user, with a colon between them, make the credentials; a missing
/// password counts as empty.
pub proof fn lemma_credentials_of_a_user(user: Seq<char>, password: Seq<char>)
    ensures
        authorization(user_credentials(user, Some(password))) == basic(user + ":"@ + password),
        authorization(user_credentials(user, None)) == basic(user + ":"@),
{
    assert(user + ":"@ + Seq::<char>::empty() =~= user + ":"@);
}

/// A call is passed on to the node as it is: with the credentials of the user where there is one,
/// else with what the cookie file holds but for the blanks around it, else with none.
pub proof fn lemma_calls_are_passed_on(
    url: Seq<char>,
    user: Seq<char>,
    password: Seq<char>,
    path: Seq<char>,
    cookie: Option<Seq<char>>,
    content: Seq<char>,
    method: Seq<char>,
    params: Seq<char>,
    e: Seq<char>,
)
    ensures
        spaced_start(None, Some(user), Some(password), cookie, method, params).ends(
            refused(503, "Spaced RPC URL not configured"@),
        ),
        spaced_start(Some(url), Some(user), Some(password), cookie, method, params).asks(
            node_call(url, method, params, Some(basic(user + ":"@ + password))),
        ),
        spaced_start(Some(url), Some(user), None, cookie, method, params).asks(
            node_call(url, method, params, Some(basic(user + ":"@))),
        ),
        spaced_start(Some(url), None, Some(password), None, method, params).asks(
            node_call(url, method, params, None),
        ),
        ({
            let m = proxy_machine();
            let reading = spaced_start(Some(url), None, Some(password), Some(path), method, params);
            &&& reading.asks(ActionView::ReadFile(path))
            &&& reading.on(m, EventView::Text(Ok(content))).asks(
                node_call(url, method, params, Some(basic(trimmed(content)))),
            )
            &&& reading.on(m, EventView::Text(Err(e))).ends(
                refused(500, "Failed to read RPC cookie file: "@ + e),
            )
        }),
        bitcoin_start(None, method, params).ends(
            refused(503, "Bitcoin RPC not available (only in test-rig mode)"@),
        ),
        bitcoin_start(Some(url), method, params).asks(
            node_call(url, method, params, Some(basic("user"@ + ":"@ + "password"@))),
        ),
{
    lemma_credentials_of_a_user(user, password);
    lemma_credentials_of_a_user("user"@, "password"@);
}

/// What the node replies is passed on: its words where it succeeded, its error where it did not
/// and gave one, and else the status.
pub proof fn lemma_replies_are_passed_on(code: u16, body: RpcBodyView, e: Seq<char>)
    ensures
        ({
            let m = proxy_machine();
            let called = ProxyStep::Perform(
                ProxyStageView::Call,
                node_call(Seq::empty(), Seq::empty(), Seq::empty(), None),
            );
            let answered = called.on(m, EventView::Sent(Ok(code)));
            let read = answered.on(m, EventView::Rpc(Ok(body)));
            &&& called.on(m, EventView::Sent(Err(e))).ends(
                refused(502, "RPC request failed: "@ + e),
            )
            &&& answered.asks(ActionView::ReadRpc)
            &&& answered.on(m, EventView::Rpc(Err(e))).ends(
                refused(502, "Invalid RPC response: "@ + e),
            )
            &&& if 200 <= code <= 299 {
                read.ends(Ok(RpcReplyView::Body(body.json)))
            } else {
                match body.error {
                    Some(error) => read.ends(Ok(RpcReplyView::Fault(error))),
                    None => read.ends(refused(502, "RPC error: "@ + status_display(code))),
                }
            }
        }),
{
}

// ---------------------------------------------------------------------------
// Certificates
// ---------------------------------------------------------------------------

/// A handle that parses is known by its canonical name; any other is refused with the reason.
pub proof fn lemma_handles_are_known_by_their_names(name: HandleNameView, e: Seq<char>)
    ensures
        named(Ok(name)) == Ok::<Seq<char>, ApiErrorView>(name.text),
        named(Err(e)) == refused::<Seq<char>>(400, "invalid handle: "@ + e),
{
}

/// The file of a message has the name of the handle, with an underscore for each at-sign and each
/// slash and all other characters as they are, and an ending of its own.
pub proof fn lemma_message_files_are_named(handle: Seq<char>, i: int)
    requires
        0 <= i < handle.len(),
    ensures
        flattened(handle).len() == handle.len(),
        flattened(handle)[i] == if handle[i] == '@' || handle[i] == '/' {
            '_'
        } else {
            handle[i]
        },
        message_file(handle) == flattened(handle) + ".message.bin"@,
{
}

// ---------------------------------------------------------------------------
// Logging
// ---------------------------------------------------------------------------

/// Everything is logged but the start page and what lies below the pages' directory.
pub proof fn lemma_pages_are_not_logged(path: Seq<char>, rest: Seq<char>)
    ensures
        !api_path("/"@),
        !api_path("/ui/"@ + rest),
        path != "/"@ && !(exists|r: Seq<char>| path == #[trigger] ("/ui/"@ + r)) ==> api_path(path),
{
    assert(("/ui/"@ + rest).take("/ui/"@.len() as int) =~= "/ui/"@);
    if !api_path(path) && path != "/"@ {
        let r = path.skip("/ui/"@.len() as int);
        assert(path =~= "/ui/"@ + r);
    }
}

/// A body that its type calls JSON, text or a form is shown as it is where it is UTF-8, and else by
/// its size; any other is shown by its size and in Base64, and nothing of an empty one.
pub proof fn lemma_bodies_are_shown(ct: Seq<char>, body: Seq<u8>, rest: Seq<char>)
    ensures
        ({
            let textual = has_substring(ct, "json"@) || (exists|r: Seq<char>|
                ct == #[trigger] ("text/"@ + r));
            let form = has_substring(ct, "x-www-form-urlencoded"@);
            let shown = body_text(Some(ct), body);
            let binary = if body.len() == 0 {
                Seq::empty()
            } else {
                "<binary body "@ + decimal(body.len()) + " bytes, base64="@ + base64_text(body)
                    + ">"@
            };
            &&& (textual || form) && valid_utf8(body) ==> shown == decode_utf8(body)
            &&& textual && !valid_utf8(body) ==> shown == "<non-utf8 body: "@ + decimal(body.len())
                + " bytes>"@
            &&& !textual && form && !valid_utf8(body) ==> shown == "<non-utf8 form body: "@
                + decimal(body.len()) + " bytes>"@
            &&& !textual && !form ==> shown == binary
            &&& body_text(None, body) == binary
        }),
{
    if exists|r: Seq<char>| ct == #[trigger] ("text/"@ + r) {
        let r = choose|r: Seq<char>| ct == #[trigger] ("text/"@ + r);
        assert(ct.take("text/"@.len() as int) =~= "text/"@);
    }
    if crate::text::has_prefix(ct, "text/"@) {
        assert(ct =~= "text/"@ + ct.skip("text/"@.len() as int));
    }
}

/// A text of up to 4096 characters is shown whole, and of a longer one the first 4096 and a mark.
pub proof fn lemma_long_texts_are_cut(short: Seq<char>, long: Seq<char>, more: Seq<char>)
    requires
        short.len() <= 4096,
        long.len() == 4096,
        more.len() > 0,
    ensures
        clipped(short) == short,
        clipped(long + more) == long + "... <truncated>"@,
{
    assert((long + more).take(4096) =~= long);
}

/// A request is logged by its method, path and query, with what is shown of its body where it has
/// one; a request for a page is not.
pub proof fn lemma_requests_are_logged(
    method: Seq<char>,
    path: Seq<char>,
    query: Seq<char>,
    content_type: Option<Seq<char>>,
    body: Seq<u8>,
)
    ensures
        ({
            let bare = "api request "@ + method + " "@ + path;
            let full = bare + ("?"@ + query);
            let shown = clipped(body_text(content_type, body));
            if !api_path(path) {
                request_log(method, path, Some(query), content_type, body) is None
            } else if body.len() == 0 {
                &&& request_log(method, path, Some(query), content_type, body) == Some(full)
                &&& request_log(method, path, None, content_type, body) == Some(bare)
            } else {
                &&& request_log(method, path, Some(query), content_type, body) == Some(
                    full + " payload="@ + shown,
                )
                &&& request_log(method, path, None, content_type, body) == Some(
                    bare + " payload="@ + shown,
                )
            }
        }),
{
    let bare = "api request "@ + method + " "@ + path;
    assert(bare + Seq::<char>::empty() =~= bare);
}

} // verus!

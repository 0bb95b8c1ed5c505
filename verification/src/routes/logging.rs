//! What is logged of a request.
use vstd::prelude::*;
use vstd::utf8::*;

use crate::adapters::{base64_encode, base64_fits, base64_text, utf8_text};
use crate::text::{
    chars_of, contains, decimal, has_prefix, has_substring, opt_str_view, opt_view, starts_with,
    text_eq, usize_text,
};

verus! {

/// The largest body that is read for the log.
pub const MAX_LOG_BODY_BYTES: usize = 1024 * 1024;

/// How many characters of a body are logged at most.
pub const MAX_LOG_TEXT_CHARS: usize = 4096;

/// A path of the interface proper, rather than of its pages.
pub open spec fn api_path(path: Seq<char>) -> bool {
    path != "/"@ && !has_prefix(path, "/ui/"@)
}

proof fn lemma_pages_are_below_ui()
    ensures
        has_prefix("/ui/operate"@, "/ui/"@),
        has_prefix("/ui/query"@, "/ui/"@),
        has_prefix("/ui/settings"@, "/ui/"@),
        has_prefix("/ui/transactions"@, "/ui/"@),
{
    reveal_strlit("/ui/");
    reveal_strlit("/ui/operate");
    reveal_strlit("/ui/query");
    reveal_strlit("/ui/settings");
    reveal_strlit("/ui/transactions");
    assert("/ui/operate"@.take(4) =~= "/ui/"@);
    assert("/ui/query"@.take(4) =~= "/ui/"@);
    assert("/ui/settings"@.take(4) =~= "/ui/"@);
    assert("/ui/transactions"@.take(4) =~= "/ui/"@);
}

/// Whether a path is one of the interface proper.
pub fn is_api_path(path: &str) -> (yes: bool)
    ensures
        yes == api_path(path@),
{
    proof {
        lemma_pages_are_below_ui();
    }
    let page = text_eq(path, "/") || text_eq(path, "/ui/operate") || text_eq(path, "/ui/query")
        || text_eq(path, "/ui/settings") || text_eq(path, "/ui/transactions");
    !page && !starts_with(path, "/ui/")
}

/// A body that is text, by its type.
pub open spec fn is_text_type(content_type: Seq<char>) -> bool {
    has_substring(content_type, "json"@) || has_prefix(content_type, "text/"@)
}

/// A body that is a form, by its type.
pub open spec fn is_form_type(content_type: Seq<char>) -> bool {
    has_substring(content_type, "x-www-form-urlencoded"@)
}

/// A body as text.
pub open spec fn body_text(content_type: Option<Seq<char>>, body: Seq<u8>) -> Seq<char> {
    match content_type {
        Some(ct) if is_text_type(ct) => if valid_utf8(body) {
            decode_utf8(body)
        } else {
            "<non-utf8 body: "@ + decimal(body.len()) + " bytes>"@
        },
        Some(ct) if is_form_type(ct) => if valid_utf8(body) {
            decode_utf8(body)
        } else {
            "<non-utf8 form body: "@ + decimal(body.len()) + " bytes>"@
        },
        _ => if body.len() == 0 {
            Seq::empty()
        } else {
            "<binary body "@ + decimal(body.len()) + " bytes, base64="@ + base64_text(body) + ">"@
        },
    }
}

/// A text, cut where it is too long.
pub open spec fn clipped(text: Seq<char>) -> Seq<char> {
    if text.len() > MAX_LOG_TEXT_CHARS {
        text.take(MAX_LOG_TEXT_CHARS as int) + "... <truncated>"@
    } else {
        text
    }
}

/// A text, cut where it is too long.
pub fn clip(text: String) -> (short: String)
    ensures
        short@ == clipped(text@),
{
    let n: usize = chars_of(text.as_str()).len();
    if n > MAX_LOG_TEXT_CHARS {
        assert(text@.subrange(0, MAX_LOG_TEXT_CHARS as int) =~= text@.take(
            MAX_LOG_TEXT_CHARS as int,
        ));
        text.as_str().substring_char(0, MAX_LOG_TEXT_CHARS).to_owned().concat("... <truncated>")
    } else {
        text
    }
}

fn sized(before: &str, len: usize, after: &str) -> (text: String)
    ensures
        text@ == before@ + decimal(len as nat) + after@,
{
    before.to_owned().concat(usize_text(len).as_str()).concat(after)
}

/// What is logged of a body.
pub fn body_preview(content_type: Option<&str>, body: &[u8]) -> (preview: String)
    requires
        base64_fits(body@.len()),
    ensures
        preview@ == clipped(body_text(opt_str_view(content_type), body@)),
{
    let len: usize = body.len();
    let (text_type, form_type) = match content_type {
        Some(ct) => (
            contains(ct, "json") || starts_with(ct, "text/"),
            contains(ct, "x-www-form-urlencoded"),
        ),
        None => (false, false),
    };
    let text = if text_type {
        match utf8_text(body) {
            Some(t) => t,
            None => sized("<non-utf8 body: ", len, " bytes>"),
        }
    } else if form_type {
        match utf8_text(body) {
            Some(t) => t,
            None => sized("<non-utf8 form body: ", len, " bytes>"),
        }
    } else if len == 0 {
        String::new()
    } else {
        sized("<binary body ", len, " bytes, base64=").concat(base64_encode(body).as_str()).concat(
            ">",
        )
    };
    clip(text)
}

/// No more is logged of a body than so many characters and a mark.
pub proof fn lemma_previews_are_short(text: Seq<char>)
    ensures
        clipped(text).len() <= MAX_LOG_TEXT_CHARS + 15,
{
    reveal_strlit("... <truncated>");
}

/// The request line of a log entry.
pub open spec fn request_text(
    method: Seq<char>,
    path: Seq<char>,
    query: Option<Seq<char>>,
) -> Seq<char> {
    "api request "@ + method + " "@ + path + match query {
        Some(q) => "?"@ + q,
        None => Seq::empty(),
    }
}

fn request_line(method: &str, path: &str, query: Option<&str>) -> (line: String)
    ensures
        line@ == request_text(method@, path@, opt_str_view(query)),
{
    let line = "api request ".to_owned().concat(method).concat(" ").concat(path);
    let tail = match query {
        Some(q) => "?".to_owned().concat(q),
        None => String::new(),
    };
    line.concat(tail.as_str())
}

/// What is logged of a request, if anything.
pub open spec fn request_log(
    method: Seq<char>,
    path: Seq<char>,
    query: Option<Seq<char>>,
    content_type: Option<Seq<char>>,
    body: Seq<u8>,
) -> Option<Seq<char>> {
    if !api_path(path) {
        None
    } else if body.len() == 0 {
        Some(request_text(method, path, query))
    } else {
        Some(
            request_text(method, path, query) + " payload="@ + clipped(
                body_text(content_type, body),
            ),
        )
    }
}

/// What is logged of a request, if anything.
pub fn log_api_requests(
    method: &str,
    path: &str,
    query: Option<&str>,
    content_type: Option<&str>,
    body: &[u8],
) -> (line: Option<String>)
    requires
        base64_fits(body@.len()),
    ensures
        opt_view(line) == request_log(
            method@,
            path@,
            opt_str_view(query),
            opt_str_view(content_type),
            body@,
        ),
{
    if !is_api_path(path) {
        return None;
    }
    let line = request_line(method, path, query);
    if body.len() == 0 {
        Some(line)
    } else {
        let preview = body_preview(content_type, body);
        Some(line.concat(" payload=").concat(preview.as_str()))
    }
}

/// What is logged of a request whose body could not be read.
pub fn log_unreadable(method: &str, path: &str, query: Option<&str>, error: &str) -> (line: String)
    ensures
        line@ == request_text(method@, path@, opt_str_view(query)) + " body read failed: "@
            + error@,
{
    request_line(method, path, query).concat(" body read failed: ").concat(error)
}

} // verus!

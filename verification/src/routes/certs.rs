//! Certificate endpoints.
use vstd::prelude::*;

use crate::adapters::{
    base64_encode, base64_fits, base64_text, handle_name, parse_handle, HandleName, HandleNameView,
};
use crate::flow::{answer_view, refusal, refuse, ApiError, ApiErrorView, BAD_REQUEST, INTERNAL};
use crate::text::{flatten, flattened, result_view};

verus! {

pub struct IssueCertResponse {
    /// Base64-encoded root certificate.
    pub root_cert: String,
    /// Base64-encoded handle certificate, where a handle was asked for.
    pub handle_cert: Option<String>,
}

/// The answer to a handle that was or could not be parsed.
pub open spec fn named(parsed: Result<HandleNameView, Seq<char>>) -> Result<Seq<char>, ApiErrorView> {
    match parsed {
        Ok(name) => Ok(name.text),
        Err(e) => refusal(BAD_REQUEST, "invalid handle: "@ + e),
    }
}

/// The canonical name of a handle that was parsed, or the refusal of one that could
/// not be.
pub fn name_answer(parsed: Result<HandleName, String>) -> (name: Result<String, ApiError>)
    ensures
        answer_view(name) == named(result_view(parsed)),
{
    match parsed {
        Ok(name) => Ok(name.text),
        Err(e) => Err(refuse(BAD_REQUEST, "invalid handle: ".to_owned().concat(e.as_str()))),
    }
}

/// The handle whose certificate is asked for: a space, such as `@example`, or a handle
/// below it, such as `alice@example`.
pub fn issue_cert(handle: &str) -> (name: Result<String, ApiError>)
    ensures
        answer_view(name) == named(handle_name(handle@)),
{
    name_answer(parse_handle(handle))
}

/// Certificates in encoded form, or why one could not be encoded.
pub struct Issued {
    pub root: Result<Vec<u8>, String>,
    pub handle: Option<Result<Vec<u8>, String>>,
}

/// The answer to a request for a certificate.
pub fn issue_cert_answer(issued: Result<Issued, String>) -> (answer: Result<
    IssueCertResponse,
    ApiError,
>)
    requires
        issued matches Ok(i) ==> (i.root matches Ok(root) ==> base64_fits(root@.len())) && (
        i.handle matches Some(Ok(handle)) ==> base64_fits(handle@.len())),
    ensures
        match issued {
            Err(e) => answer matches Err(r) && r@ == (ApiErrorView {
                status: INTERNAL,
                message: e@,
            }),
            Ok(i) => match (i.root, i.handle) {
                (Err(e), _) => answer matches Err(r) && r@ == (ApiErrorView {
                    status: INTERNAL,
                    message: "failed to serialize root cert: "@ + e@,
                }),
                (Ok(_), Some(Err(e))) => answer matches Err(r) && r@ == (ApiErrorView {
                    status: INTERNAL,
                    message: "failed to serialize handle cert: "@ + e@,
                }),
                (Ok(root), Some(Ok(handle))) => answer matches Ok(a) && a.root_cert@ == base64_text(
                    root@,
                ) && (a.handle_cert matches Some(h) && h@ == base64_text(handle@)),
                (Ok(root), None) => answer matches Ok(a) && a.root_cert@ == base64_text(root@)
                    && a.handle_cert is None,
            },
        },
{
    let issued = match issued {
        Ok(i) => i,
        Err(e) => return Err(refuse(INTERNAL, e)),
    };
    let root = match issued.root {
        Ok(bytes) => bytes,
        Err(e) => {
            return Err(
                refuse(
                    INTERNAL,
                    "failed to serialize root cert: ".to_owned().concat(e.as_str()),
                ),
            );
        },
    };
    let handle_cert = match issued.handle {
        None => None,
        Some(Ok(bytes)) => Some(base64_encode(bytes.as_slice())),
        Some(Err(e)) => {
            return Err(
                refuse(
                    INTERNAL,
                    "failed to serialize handle cert: ".to_owned().concat(e.as_str()),
                ),
            );
        },
    };
    Ok(IssueCertResponse { root_cert: base64_encode(root.as_slice()), handle_cert })
}

/// The bytes that publishing a handle would send, as a file.
pub struct ExportedMessage {
    /// The `Content-Disposition` header.
    pub disposition: String,
    pub bytes: Vec<u8>,
}

/// The name of the file: that of the handle, with no signs that a path may hold.
pub open spec fn message_file(handle: Seq<char>) -> Seq<char> {
    flattened(handle) + ".message.bin"@
}

/// The handle whose message is asked for.
pub fn export_message(handle: &str) -> (name: Result<String, ApiError>)
    ensures
        answer_view(name) == named(handle_name(handle@)),
{
    name_answer(parse_handle(handle))
}

/// The answer to a request for a handle's message.
pub fn export_answer(handle: &str, built: Result<Vec<u8>, String>) -> (answer: Result<
    ExportedMessage,
    ApiError,
>)
    ensures
        built matches Err(e) ==> (answer matches Err(r) && r@ == (ApiErrorView {
            status: INTERNAL,
            message: e@,
        })),
        built matches Ok(bytes) ==> (answer matches Ok(m) && m.bytes == bytes && m.disposition@
            == "attachment; filename=\""@ + message_file(handle@) + "\""@),
{
    match built {
        Err(e) => Err(refuse(INTERNAL, e)),
        Ok(bytes) => {
            let file = flatten(handle).concat(".message.bin");
            let disposition = "attachment; filename=\"".to_owned().concat(file.as_str()).concat(
                "\"",
            );
            Ok(ExportedMessage { disposition, bytes })
        },
    }
}

/// No path separator and no at-sign is left in the name of a file.
pub proof fn lemma_message_file_is_flat(handle: Seq<char>)
    ensures
        forall|i: int|
            0 <= i < message_file(handle).len() ==> (#[trigger] message_file(handle)[i]) != '/'
                && message_file(handle)[i] != '@',
{
    reveal_strlit(".message.bin");
    assert forall|i: int| 0 <= i < message_file(handle).len() implies (
    #[trigger] message_file(handle)[i]) != '/' && message_file(handle)[i] != '@' by {
        if i < handle.len() {
            assert(message_file(handle)[i] == flattened(handle)[i]);
        } else {
            assert(message_file(handle)[i] == ".message.bin"@[i - handle.len()]);
        }
    }
}

} // verus!

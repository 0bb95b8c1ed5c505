//! Calls into other crates, as plain functions on plain values.
//!
//! Nothing in this module decides anything: each function makes one call and
//! changes the types of what goes in and comes out. What their contracts claim
//! is taken from the crates' sources and documentation, not proved here.
use vstd::prelude::*;
use vstd::utf8::*;

use base64::Engine;

use crate::text::{has_prefix, opt_view};

verus! {

// ---------------------------------------------------------------------------
// Base64
// ---------------------------------------------------------------------------

/// The standard, padded Base64 text of some bytes.
pub uninterp spec fn base64_text(data: Seq<u8>) -> Seq<char>;

/// The bytes that a standard, padded Base64 text stands for, or the reason why
/// it stands for none.
pub uninterp spec fn base64_bytes(text: Seq<char>) -> Result<Seq<u8>, Seq<char>>;

/// The characters of a Base64 text.
pub open spec fn base64_char(c: char) -> bool {
    'A' <= c <= 'Z' || 'a' <= c <= 'z' || '0' <= c <= '9' || c == '+' || c == '/' || c == '='
}

/// How many bytes can be encoded without the text outgrowing memory.
pub open spec fn base64_fits(len: nat) -> bool {
    len <= usize::MAX / 4
}

/// `base64::Engine::encode` of the standard engine.
///
/// Claims that the text is a function of the bytes alone, that it is made of the
/// letters, digits and signs of the standard alphabet and of padding, and that
/// decoding it with the same engine gives the bytes back. The length bound keeps
/// the size of the text within what can be allocated; the call panics beyond that.
#[verifier::external_body]
pub(crate) fn base64_encode(data: &[u8]) -> (text: String)
    requires
        base64_fits(data@.len()),
    ensures
        text@ == base64_text(data@),
        base64_bytes(text@) is Ok,
        base64_bytes(text@)->Ok_0 == data@,
        forall|i: int| 0 <= i < text@.len() ==> base64_char(#[trigger] text@[i]),
{
    base64::engine::general_purpose::STANDARD.encode(data)
}

/// `base64::Engine::decode` of the standard engine, its error as a text.
///
/// Claims that bytes or error text are a function of the input text alone.
#[verifier::external_body]
pub(crate) fn base64_decode(text: &str) -> (data: Result<Vec<u8>, String>)
    ensures
        match data {
            Ok(d) => base64_bytes(text@) is Ok && base64_bytes(text@)->Ok_0 == d@,
            Err(e) => base64_bytes(text@) is Err && base64_bytes(text@)->Err_0 == e@,
        },
{
    match base64::engine::general_purpose::STANDARD.decode(text) {
        Ok(data) => Ok(data),
        Err(e) => Err(e.to_string()),
    }
}

// ---------------------------------------------------------------------------
// Hexadecimal
// ---------------------------------------------------------------------------

/// The lower-case character of a hexadecimal digit.
pub open spec fn hex_char(d: nat) -> char {
    if d < 10 {
        (('0' as u8) + d) as char
    } else {
        (('a' as u8) + d - 10) as char
    }
}

/// Two lower-case hexadecimal digits for each byte, the high one first.
pub open spec fn hex_text(data: Seq<u8>) -> Seq<char> {
    Seq::new(
        2 * data.len(),
        |i: int|
            if i % 2 == 0 {
                hex_char((data[i / 2] / 16) as nat)
            } else {
                hex_char((data[i / 2] % 16) as nat)
            },
    )
}

/// The value of a hexadecimal digit of either case.
pub open spec fn hex_value(c: char) -> Option<nat> {
    if '0' <= c <= '9' {
        Some((c as u8 - '0' as u8) as nat)
    } else if 'a' <= c <= 'f' {
        Some((c as u8 - 'a' as u8 + 10) as nat)
    } else if 'A' <= c <= 'F' {
        Some((c as u8 - 'A' as u8 + 10) as nat)
    } else {
        None
    }
}

/// A text is an even number of hexadecimal digits.
pub open spec fn is_hex(text: Seq<char>) -> bool {
    &&& text.len() % 2 == 0
    &&& forall|i: int| 0 <= i < text.len() ==> hex_value(#[trigger] text[i]) is Some
}

/// The bytes that hexadecimal digits stand for, two digits each.
pub open spec fn unhex(text: Seq<char>) -> Option<Seq<u8>> {
    if is_hex(text) {
        Some(
            Seq::new(
                text.len() / 2,
                |i: int| (16 * hex_value(text[2 * i])->0 + hex_value(text[2 * i + 1])->0) as u8,
            ),
        )
    } else {
        None
    }
}

/// `hex::encode`: lower-case, two digits for each byte. The length bound keeps the
/// text within what can be allocated.
#[verifier::external_body]
pub(crate) fn hex_encode(data: &[u8]) -> (text: String)
    requires
        data@.len() <= usize::MAX / 4,
    ensures
        text@ == hex_text(data@),
{
    hex::encode(data)
}

/// `hex::decode`: the bytes of an even number of digits of either case, and
/// `None` for any other text. Which digit was at fault is left out.
#[verifier::external_body]
pub(crate) fn hex_decode(text: &str) -> (data: Option<Vec<u8>>)
    ensures
        match data {
            Some(d) => unhex(text@) == Some(d@),
            None => unhex(text@) is None,
        },
{
    hex::decode(text).ok()
}

// ---------------------------------------------------------------------------
// Bitcoin
// ---------------------------------------------------------------------------

/// The secret of a private key in wallet import format, if the text is one.
pub uninterp spec fn wif_secret(wif: Seq<char>) -> Option<Seq<u8>>;

/// `bitcoin::PrivateKey::from_wif`, then the bytes of the secret in it.
///
/// Claims that whether the text is a key, and which, depends on the text alone,
/// and that a secret has 32 bytes. The decoder multiplies the length of the text
/// by eleven, which must not overflow.
#[verifier::external_body]
pub(crate) fn wif_decode(wif: &str) -> (secret: Option<Vec<u8>>)
    requires
        encode_utf8(wif@).len() <= usize::MAX / 11,
    ensures
        match secret {
            Some(s) => wif_secret(wif@) == Some(s@) && s@.len() == 32,
            None => wif_secret(wif@) is None,
        },
{
    match bitcoin::PrivateKey::from_wif(wif) {
        Ok(key) => Some(key.inner.secret_bytes().to_vec()),
        Err(_) => None,
    }
}

// ---------------------------------------------------------------------------
// Names of spaces and handles
// ---------------------------------------------------------------------------

/// The canonical form of a space label, if the text is one.
pub uninterp spec fn space_label(text: Seq<char>) -> Option<Seq<char>>;

/// What the parser says of every text that is no space label.
pub open spec fn label_error() -> Seq<char> {
    "Name Error: Malformed name"@
}

/// `spaces_protocol`'s `SLabel::from_str`, then its `Display`.
///
/// Claims that the canonical form depends on the text alone; that it is the text
/// itself, except for a text that starts with `@#`; that a canonical form is a
/// label, with itself as canonical form; and that there is one error text.
#[verifier::external_body]
pub(crate) fn parse_label(text: &str) -> (label: Result<String, String>)
    ensures
        match label {
            Ok(l) => {
                &&& space_label(text@) == Some(l@)
                &&& space_label(l@) == Some(l@)
                &&& !has_prefix(text@, seq!['@', '#']) ==> l@ == text@
            },
            Err(e) => space_label(text@) is None && e@ == label_error(),
        },
{
    match text.parse::<spaces_protocol::slabel::SLabel>() {
        Ok(label) => Ok(label.to_string()),
        Err(e) => Err(e.to_string()),
    }
}

/// A parsed handle such as `alice@example`, as texts.
pub struct HandleName {
    /// The canonical form.
    pub text: String,
    /// The canonical label of its space, `@example`.
    pub space: Option<String>,
    /// The label right below the space, `alice`.
    pub subname: Option<String>,
}

/// A parsed handle, as character sequences.
pub ghost struct HandleNameView {
    pub text: Seq<char>,
    pub space: Option<Seq<char>>,
    pub subname: Option<Seq<char>>,
}

impl View for HandleName {
    type V = HandleNameView;

    open spec fn view(&self) -> HandleNameView {
        HandleNameView {
            text: self.text@,
            space: opt_view(self.space),
            subname: opt_view(self.subname),
        }
    }
}

/// The parts of a handle, or the reason why the text is none.
pub uninterp spec fn handle_name(text: Seq<char>) -> Result<HandleNameView, Seq<char>>;

/// `spaces_protocol`'s `SName::from_str`, then `Display`, `space` and `subspace`
/// of the name.
///
/// Claims that parts or error text are a function of the input text alone.
#[verifier::external_body]
pub(crate) fn parse_handle(text: &str) -> (name: Result<HandleName, String>)
    ensures
        match name {
            Ok(n) => handle_name(text@) is Ok && handle_name(text@)->Ok_0 == n@,
            Err(e) => handle_name(text@) is Err && handle_name(text@)->Err_0 == e@,
        },
{
    match text.parse::<spaces_protocol::sname::SName>() {
        Ok(name) => Ok(
            HandleName {
                text: name.to_string(),
                space: name.space().map(|s| s.to_string()),
                subname: name.subspace().map(|s| s.to_string()),
            },
        ),
        Err(e) => Err(e.to_string()),
    }
}

/// Whether a text is a label that can stand below a space.
pub uninterp spec fn is_subname(text: Seq<char>) -> bool;

/// `spaces_protocol`'s `Subname::from_str`, then its `Display`.
///
/// Claims that validity depends on the text alone, that a valid label is its own
/// canonical form, and that there is one error text.
#[verifier::external_body]
pub(crate) fn parse_subname(text: &str) -> (label: Result<String, String>)
    ensures
        match label {
            Ok(l) => is_subname(text@) && l@ == text@,
            Err(e) => !is_subname(text@) && e@ == "invalid subspace label"@,
        },
{
    match text.parse::<spaces_protocol::sname::Subname>() {
        Ok(label) => Ok(label.to_string()),
        Err(e) => Err(e.to_string()),
    }
}

// ---------------------------------------------------------------------------
// HTTP status codes and identifiers
// ---------------------------------------------------------------------------

/// A status code and its canonical reason, such as `404 Not Found`.
pub uninterp spec fn status_display(code: u16) -> Seq<char>;

/// The codes that an HTTP response can carry.
pub open spec fn is_status(code: u16) -> bool {
    100 <= code <= 999
}

/// `reqwest::StatusCode::from_u16`, then its `Display`.
///
/// Claims that the text depends on the code alone. `from_u16` refuses a code that is
/// no three-digit number.
#[verifier::external_body]
pub(crate) fn status_text(code: u16) -> (text: String)
    requires
        is_status(code),
    ensures
        text@ == status_display(code),
{
    reqwest::StatusCode::from_u16(code).unwrap().to_string()
}

/// The shape of a hyphenated identifier: 36 characters, a hyphen at four fixed
/// positions, and lower-case hexadecimal digits elsewhere.
pub open spec fn is_uuid(text: Seq<char>) -> bool {
    &&& text.len() == 36
    &&& forall|i: int|
        0 <= i < 36 ==> if i == 8 || i == 13 || i == 18 || i == 23 {
            #[trigger] text[i] == '-'
        } else {
            '0' <= text[i] <= '9' || 'a' <= text[i] <= 'f'
        }
}

/// `uuid::Uuid::new_v4`, then its `Display`.
///
/// The identifier is drawn at random, so only its shape is claimed; that two of
/// them differ is likely but not certain, and not claimed.
#[verifier::external_body]
pub(crate) fn fresh_uuid() -> (text: String)
    ensures
        is_uuid(text@),
{
    uuid::Uuid::new_v4().to_string()
}

// ---------------------------------------------------------------------------
// UTF-8
// ---------------------------------------------------------------------------

/// `std::str::from_utf8`: the text that some bytes encode, and `None` when they
/// are not valid UTF-8.
#[verifier::external_body]
pub(crate) fn utf8_text(data: &[u8]) -> (text: Option<String>)
    ensures
        match text {
            Some(t) => valid_utf8(data@) && t@ == decode_utf8(data@),
            None => !valid_utf8(data@),
        },
{
    std::str::from_utf8(data).ok().map(|t| t.to_owned())
}

// ---------------------------------------------------------------------------
// JSON
// ---------------------------------------------------------------------------

/// What `serde_json::from_str` accepts as a value.
pub uninterp spec fn json_valid(text: Seq<char>) -> bool;

/// `serde_json::from_str` into a value: whether the text is JSON.
///
/// The claim is that the verdict depends on the text alone.
#[verifier::external_body]
pub(crate) fn is_json(text: &str) -> (yes: bool)
    ensures
        yes == json_valid(text@),
{
    serde_json::from_str::<serde_json::Value>(text).is_ok()
}

// ---------------------------------------------------------------------------
// Debug texts
// ---------------------------------------------------------------------------

/// An optional text in `Debug` form.
pub uninterp spec fn debug_form(text: Option<Seq<char>>) -> Seq<char>;

/// The `Debug` form of an optional text, by `format!`.
///
/// Claims only that the form depends on the text alone.
#[verifier::external_body]
pub(crate) fn debug_text(text: &Option<String>) -> (form: String)
    ensures
        form@ == debug_form(opt_view(*text)),
{
    format!("{:?}", text)
}

// ---------------------------------------------------------------------------
// Fees
// ---------------------------------------------------------------------------

/// A rate per virtual byte that can be converted.
pub open spec fn fee_fits(sat_per_vb: u64) -> bool {
    sat_per_vb * 250 <= u64::MAX
}

/// `bitcoin::FeeRate::from_sat_per_vb_unchecked`, then `to_sat_per_kwu`.
///
/// Claims that a rate per thousand weight units is 250 times the rate per virtual
/// byte. A product beyond 64 bits is left out: the multiplication is unchecked.
#[allow(deprecated)]
#[verifier::external_body]
pub(crate) fn sat_per_kwu(sat_per_vb: u64) -> (rate: u64)
    requires
        fee_fits(sat_per_vb),
    ensures
        rate == sat_per_vb * 250,
{
    bitcoin::FeeRate::from_sat_per_vb_unchecked(sat_per_vb).to_sat_per_kwu()
}

} // verus!

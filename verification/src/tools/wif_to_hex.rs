//! Private keys as hexadecimal text.
use vstd::prelude::*;
use vstd::utf8::*;

use crate::adapters::{hex_encode, hex_text, wif_decode, wif_secret};
use crate::text::{opt_view, result_view, trim, trimmed};

verus! {

/// The text of a secret, or what is said where there is none.
pub open spec fn secret_text(secret: Option<Seq<u8>>, prefix: bool) -> Result<Seq<char>, Seq<char>> {
    match secret {
        None => Err("invalid WIF (bad Base58Check encoding or checksum)"@),
        Some(bytes) => Ok(
            if prefix {
                "0x"@ + hex_text(bytes)
            } else {
                hex_text(bytes)
            },
        ),
    }
}

/// The text of a secret that was decoded, or what is said of one that could not be.
pub fn show_secret(secret: Option<Vec<u8>>, prefix: bool) -> (text: Result<String, String>)
    requires
        secret matches Some(bytes) ==> bytes@.len() <= usize::MAX / 4,
    ensures
        result_view(text) == secret_text(opt_view(secret), prefix),
{
    match secret {
        None => Err("invalid WIF (bad Base58Check encoding or checksum)".to_owned()),
        Some(bytes) => {
            let hex = hex_encode(bytes.as_slice());
            if prefix {
                Ok("0x".to_owned().concat(hex.as_str()))
            } else {
                Ok(hex)
            }
        },
    }
}

/// The secret of a key in wallet import format, as text.
pub fn wif_to_hex(wif: &str, prefix: bool) -> (text: Result<String, String>)
    requires
        encode_utf8(trimmed(wif@)).len() <= usize::MAX / 11,
    ensures
        result_view(text) == secret_text(wif_secret(trimmed(wif@)), prefix),
        text matches Ok(t) ==> t@.len() == (if prefix {
            66int
        } else {
            64
        }),
{
    proof {
        reveal_strlit("0x");
    }
    show_secret(wif_decode(trim(wif)), prefix)
}

} // verus!

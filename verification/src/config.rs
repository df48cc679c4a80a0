//! The server's settings, read from the values of its environment variables.

use vstd::prelude::*;
use vstd::string::StringSliceAdditionalSpecFns;

use crate::auth::opt_view;
use crate::text::{parse_u64, parse_u64_spec, str_equal};

verus! {

/// Whether session cookies get the `Secure` attribute: exactly when
/// `COOKIE_SECURE` is `true`.
pub fn cookie_secure_setting(value: Option<&str>) -> (secure: bool)
    ensures
        secure == (opt_view(value) == Some("true"@)),
{
    match value {
        Some(v) => str_equal(v, "true"),
        None => false,
    }
}

/// The largest request body, in bytes, when `MAX_BODY_BYTES` does not say.
pub const DEFAULT_MAX_BODY_BYTES: u64 = 8192;

/// The largest request body in bytes: `MAX_BODY_BYTES` read as a `u64`, or
/// 8192 when it is missing or not a number.
pub fn max_body_bytes_setting(value: Option<&str>) -> (max: u64)
    ensures
        max == match opt_view(value) {
            Some(v) => match parse_u64_spec(v) {
                Some(n) => n,
                None => DEFAULT_MAX_BODY_BYTES,
            },
            None => DEFAULT_MAX_BODY_BYTES,
        },
{
    match value {
        Some(v) => match parse_u64(v) {
            Some(n) => n,
            None => DEFAULT_MAX_BODY_BYTES,
        },
        None => DEFAULT_MAX_BODY_BYTES,
    }
}

/// The address to listen on: `BIND_ADDR`, or `127.0.0.1:8080`.
pub fn bind_addr_setting(value: Option<&str>) -> (addr: String)
    ensures
        addr@ == match opt_view(value) {
            Some(v) => v,
            None => "127.0.0.1:8080"@,
        },
{
    match value {
        Some(v) => v.to_owned(),
        None => "127.0.0.1:8080".to_owned(),
    }
}

/// Why `SESSION_KEY` cannot be the key that encrypts session cookies.
#[derive(Debug, PartialEq, Eq, Structural)]
pub enum SessionKeyError {
    /// It is not hexadecimal.
    InvalidHex,
    /// It holds fewer than 64 bytes (128 hexadecimal digits).
    TooShort,
}

/// The value of a hexadecimal digit, in either case.
pub open spec fn hex_value(b: u8) -> int {
    if 48 <= b <= 57 {
        b - 48
    } else if 65 <= b <= 70 {
        b - 55
    } else {
        b - 87
    }
}

/// Whether `b` is a hexadecimal digit, in either case.
pub open spec fn is_hex_byte(b: u8) -> bool {
    (48 <= b <= 57) || (65 <= b <= 70) || (97 <= b <= 102)
}

/// Whether `text` is hexadecimal: an even number of hexadecimal digits.
pub open spec fn is_hex_text(text: Seq<u8>) -> bool {
    text.len() % 2 == 0 && forall|i: int| 0 <= i < text.len() ==> is_hex_byte(#[trigger] text[i])
}

/// Whether `bytes` are what the hexadecimal `text` writes: one byte per pair
/// of digits, high half first.
pub open spec fn hex_decodes_to(text: Seq<u8>, bytes: Seq<u8>) -> bool {
    &&& bytes.len() * 2 == text.len()
    &&& forall|i: int|
        0 <= i < bytes.len() ==> #[trigger] bytes[i] == hex_value(text[2 * i]) * 16 + hex_value(
            text[2 * i + 1],
        )
}

/// `hex::decode`: the bytes that hexadecimal text writes (either case), or
/// `None` when it has an odd length or a character that is not a digit.
#[verifier::external_body]
fn hex_decode(text: &[u8]) -> (r: Option<Vec<u8>>)
    ensures
        r is Some <==> is_hex_text(text@),
        r matches Some(b) ==> hex_decodes_to(text@, b@),
{
    hex::decode(text).ok()
}

/// The key that encrypts session cookies, from the hexadecimal `SESSION_KEY`;
/// it must hold at least 64 bytes.
pub fn session_key_bytes(hex_text: &str) -> (r: Result<Vec<u8>, SessionKeyError>)
    ensures
        match r {
            Ok(b) => is_hex_text(hex_text.spec_bytes()) && hex_decodes_to(hex_text.spec_bytes(), b@)
                && b@.len() >= 64,
            Err(SessionKeyError::InvalidHex) => !is_hex_text(hex_text.spec_bytes()),
            Err(SessionKeyError::TooShort) => is_hex_text(hex_text.spec_bytes())
                && hex_text.spec_bytes().len() < 128,
        },
{
    match hex_decode(hex_text.as_bytes()) {
        Some(bytes) => if bytes.len() >= 64 {
            Ok(bytes)
        } else {
            Err(SessionKeyError::TooShort)
        },
        None => Err(SessionKeyError::InvalidHex),
    }
}

} // verus!

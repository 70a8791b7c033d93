//! Byte encodings the library relies on: base64 (thumbnails, audio, data
//! URLs), SHA-256 with hex rendering (model checksums), UTF-8 decoding and
//! reading one field of a JSON reply.
//! Each function here calls an outside crate or std and is trusted; its
//! doc comment says what the contract claims.

use vstd::prelude::*;
use base64::Engine;
use sha2::Digest;

verus! {

/// The character of the standard base64 alphabet for the six-bit value
/// `v`: `A`-`Z`, `a`-`z`, `0`-`9`, `+`, `/`.
pub open spec fn base64_symbol(v: nat) -> char {
    if v < 26 {
        (65 + v) as char
    } else if v < 52 {
        (97 + (v - 26)) as char
    } else if v < 62 {
        (48 + (v - 52)) as char
    } else if v == 62 {
        '+'
    } else {
        '/'
    }
}

/// The standard-alphabet, padded base64 text of `bytes`, as the `base64`
/// crate's `STANDARD` engine writes it: each group of three bytes gives
/// four symbols, and a last group of one or two bytes is padded with `=`.
pub open spec fn base64_encoding(bytes: Seq<u8>) -> Seq<char>
    decreases bytes.len(),
{
    if bytes.len() == 0 {
        Seq::empty()
    } else if bytes.len() == 1 {
        let x = bytes[0] as nat;
        seq![base64_symbol(x / 4), base64_symbol((x % 4) * 16), '=', '=']
    } else if bytes.len() == 2 {
        let x = bytes[0] as nat;
        let y = bytes[1] as nat;
        seq![base64_symbol(x / 4), base64_symbol((x % 4) * 16 + y / 16), base64_symbol((y % 16) * 4), '=']
    } else {
        let x = bytes[0] as nat;
        let y = bytes[1] as nat;
        let z = bytes[2] as nat;
        seq![
            base64_symbol(x / 4),
            base64_symbol((x % 4) * 16 + y / 16),
            base64_symbol((y % 16) * 4 + z / 64),
            base64_symbol(z % 64),
        ] + base64_encoding(bytes.skip(3))
    }
}

/// What the `base64` crate's `STANDARD` engine makes of `text`: the
/// decoded bytes, or, when it rejects the text, its `DecodeError`
/// rendered with `to_string()`.
pub uninterp spec fn base64_decoding(text: Seq<char>) -> Result<Seq<u8>, Seq<char>>;

/// Trusted: calls `base64::engine::general_purpose::STANDARD.encode`.
/// The contract claims the result is the base64 text of `bytes` stated
/// above.
/// The `requires` keeps the input below the size at which the crate's
/// length computation would overflow and panic.
#[verifier::external_body]
pub(crate) fn base64_encode(bytes: &[u8]) -> (s: String)
    requires
        bytes@.len() <= usize::MAX / 2,
    ensures
        s@ == base64_encoding(bytes@),
{
    base64::engine::general_purpose::STANDARD.encode(bytes)
}

/// Trusted: calls `base64::engine::general_purpose::STANDARD.decode`.
/// The contract claims the outcome is the named decoding of `text`: its
/// bytes, or the text of the crate's `DecodeError` (`to_string()`), and
/// that the bytes are no more than the characters decoded (four
/// characters carry at most three bytes).
#[verifier::external_body]
pub(crate) fn base64_decode(text: &str) -> (r: Result<Vec<u8>, String>)
    ensures
        match r {
            Ok(v) => base64_decoding(text@) == Ok::<Seq<u8>, Seq<char>>(v@),
            Err(e) => base64_decoding(text@) == Err::<Seq<u8>, Seq<char>>(e@),
        },
        r matches Ok(v) ==> v@.len() <= text@.len(),
{
    base64::engine::general_purpose::STANDARD.decode(text).map_err(|e| e.to_string())
}

/// The SHA-256 digest of `bytes`.
pub uninterp spec fn sha256_of(bytes: Seq<u8>) -> Seq<u8>;

/// Trusted: calls `sha2::Sha256::digest`. The contract claims the result
/// is the named SHA-256 digest of `bytes`, 32 bytes long.
#[verifier::external_body]
pub(crate) fn sha256_digest(bytes: &[u8]) -> (d: Vec<u8>)
    ensures
        d@ == sha256_of(bytes@),
        d@.len() == 32,
{
    sha2::Sha256::digest(bytes).to_vec()
}

/// Lowercase hexadecimal digit for `d < 16`.
pub open spec fn hex_digit(d: nat) -> char {
    if d < 10 {
        ((d + 48) as u8) as char
    } else {
        ((d + 87) as u8) as char
    }
}

/// Two lowercase hex digits per byte, high nibble first.
pub open spec fn hex_text(bytes: Seq<u8>) -> Seq<char>
    decreases bytes.len(),
{
    if bytes.len() == 0 {
        Seq::empty()
    } else {
        hex_text(bytes.drop_last()) + seq![
            hex_digit((bytes.last() / 16) as nat),
            hex_digit((bytes.last() % 16) as nat),
        ]
    }
}

/// Trusted: calls `hex::encode`, which writes each byte as two lowercase
/// hex digits (high nibble first) using its `HEX_CHARS_LOWER` table; the
/// contract states exactly that.
#[verifier::external_body]
pub(crate) fn hex_encode(bytes: &[u8]) -> (s: String)
    ensures
        s@ == hex_text(bytes@),
{
    hex::encode(bytes)
}

/// Trusted: calls std's `core::str::from_utf8`, which accepts exactly the
/// well-formed UTF-8 byte sequences and then yields the characters they
/// encode; the contract states that, with the accepted text copied into
/// a `String`.
#[verifier::external_body]
pub(crate) fn utf8_decode(bytes: &[u8]) -> (r: Option<String>)
    ensures
        r is Some <==> vstd::utf8::valid_utf8(bytes@),
        r matches Some(s) ==> s@ == vstd::utf8::decode_utf8(bytes@),
{
    match core::str::from_utf8(bytes) {
        Ok(s) => Some(s.to_owned()),
        Err(_) => None,
    }
}

/// The string value of the top-level `"text"` field of a JSON document
/// as `serde_json` reads it; `None` when the text is not JSON, is not an
/// object with that key, or the value is not a string.
pub uninterp spec fn json_text_field_of(doc: Seq<char>) -> Option<Seq<char>>;

/// Trusted: parses `doc` with `serde_json::from_str` into a
/// `serde_json::Value` and reads `get("text")` and `as_str()`. The
/// contract claims only that the result is the named value of `doc`:
/// the same document always gives the same answer.
#[verifier::external_body]
pub(crate) fn json_text_field(doc: &str) -> (r: Option<String>)
    ensures
        match r {
            Some(s) => json_text_field_of(doc@) == Some(s@),
            None => json_text_field_of(doc@) is None,
        },
{
    serde_json::from_str::<serde_json::Value>(doc).ok().and_then(
        |v| v.get("text").and_then(|t| t.as_str()).map(|s| s.to_owned()),
    )
}

} // verus!

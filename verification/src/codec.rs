//! Hashing, encoding and identifiers from outside crates.
use vstd::prelude::*;
use vstd::utf8::*;
use base64::Engine;
use sha2::Digest;

verus! {

/// The SHA-256 digest of `data`.
pub uninterp spec fn sha256_digest(data: Seq<u8>) -> Seq<u8>;

/// The URL-safe base64 encoding of `data` without padding.
pub uninterp spec fn base64_url_encode(data: Seq<u8>) -> Seq<char>;

/// The bytes that the URL-safe, unpadded base64 text `input` decodes to, or
/// `None` where `input` is not such a text.
pub uninterp spec fn base64_url_decode(input: Seq<u8>) -> Option<Seq<u8>>;

/// `sha2::Sha256::digest`: the 32-byte SHA-256 digest of `data`.
#[verifier::external_body]
pub(crate) fn sha256(data: &[u8]) -> (r: [u8; 32])
    ensures
        r@ == sha256_digest(data@),
{
    sha2::Sha256::digest(data).into()
}

/// `base64::Engine::encode` with the `URL_SAFE_NO_PAD` engine. Decoding the
/// produced text with the same engine gives `data` back.
#[verifier::external_body]
pub(crate) fn base64_encode(data: &[u8]) -> (r: String)
    ensures
        r@ == base64_url_encode(data@),
        base64_url_decode(encode_utf8(r@)) == Some(data@),
{
    base64::engine::general_purpose::URL_SAFE_NO_PAD.encode(data)
}

/// `base64::Engine::decode` with the `URL_SAFE_NO_PAD` engine, applied to the
/// bytes of `input`; the decode error becomes `None`.
#[verifier::external_body]
pub(crate) fn base64_decode(input: &str) -> (r: Option<Vec<u8>>)
    ensures
        match r {
            Some(v) => base64_url_decode(encode_utf8(input@)) == Some(v@),
            None => base64_url_decode(encode_utf8(input@)) is None,
        },
{
    base64::engine::general_purpose::URL_SAFE_NO_PAD.decode(input).ok()
}

/// Whether `c` is a lower-case hexadecimal digit.
pub open spec fn is_lower_hex(c: char) -> bool {
    ('0' <= c && c <= '9') || ('a' <= c && c <= 'f')
}

/// Whether `s` is a version-4 UUID in the hyphenated lower-case form:
/// 8-4-4-4-12 lower-case hexadecimal digits, the version digit `4`, and the
/// variant digit one of `8`, `9`, `a`, `b`.
pub open spec fn is_uuid_v4_text(s: Seq<char>) -> bool {
    &&& s.len() == 36
    &&& s[8] == '-' && s[13] == '-' && s[18] == '-' && s[23] == '-'
    &&& forall|i: int| 0 <= i < 36 && i != 8 && i != 13 && i != 18 && i != 23 ==> is_lower_hex(#[trigger] s[i])
    &&& s[14] == '4'
    &&& s[19] == '8' || s[19] == '9' || s[19] == 'a' || s[19] == 'b'
}

/// `uuid::Uuid::new_v4` rendered with `to_string`: a random identifier. The
/// crate sets the version and variant bits of random bits and displays it
/// hyphenated in lower-case hexadecimal; which identifier it is, is not
/// stated.
#[verifier::external_body]
pub(crate) fn new_uuid_v4() -> (r: String)
    ensures
        is_uuid_v4_text(r@),
{
    uuid::Uuid::new_v4().to_string()
}

/// `chrono::Utc::now`, as microseconds since the Unix epoch. Nothing is
/// promised of the value: it is the clock's.
#[verifier::external_body]
pub(crate) fn now_unix_micros() -> (r: i64)
{
    chrono::Utc::now().timestamp_micros()
}

/// `chrono::Utc::now`, as whole seconds since the Unix epoch. Nothing is
/// promised of the value: it is the clock's.
#[verifier::external_body]
pub(crate) fn now_unix_seconds() -> (r: i64)
{
    chrono::Utc::now().timestamp()
}

} // verus!

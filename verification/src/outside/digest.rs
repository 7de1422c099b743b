//! Hashing and text encodings.

use vstd::prelude::*;

verus! {

/// The character of the URL-safe base64 alphabet for six bits.
pub open spec fn base64url_char(six: int) -> char {
    if six < 26 {
        ('A' as int + six) as char
    } else if six < 52 {
        ('a' as int + (six - 26)) as char
    } else if six < 62 {
        ('0' as int + (six - 52)) as char
    } else if six == 62 {
        '-'
    } else {
        '_'
    }
}

/// The `i`th group of six bits of `bytes`, the first bit of the first byte first.
/// Past the end the bits are zero.
pub open spec fn sextet(bytes: Seq<u8>, i: int) -> int {
    let j = 6 * i / 8;
    let low = if j + 1 < bytes.len() {
        bytes[j + 1] as int
    } else {
        0
    };
    let sixteen = bytes[j] as int * 256 + low;
    let shifted = if i % 4 == 0 {
        sixteen / 1024
    } else if i % 4 == 1 {
        sixteen / 16
    } else if i % 4 == 2 {
        sixteen / 64
    } else {
        sixteen / 256
    };
    shifted % 64
}

/// The URL-safe base64 text of `bytes`, without padding.
pub open spec fn base64url(bytes: Seq<u8>) -> Seq<char> {
    Seq::new(
        ((8 * bytes.len() + 5) / 6) as nat,
        |i: int| base64url_char(sextet(bytes, i)),
    )
}

/// `encode` of the `base64` engine `URL_SAFE_NO_PAD`.
#[verifier::external_body]
pub(crate) fn encode_base64url(bytes: &[u8]) -> (result: String)
    ensures
        result@ == base64url(bytes@),
{
    base64::Engine::encode(&base64::engine::general_purpose::URL_SAFE_NO_PAD, bytes)
}

/// What SHA-256 makes of `bytes`.
pub uninterp spec fn sha256_of(bytes: Seq<u8>) -> Seq<u8>;

/// `sha2::Sha256::digest`: thirty-two bytes that depend on the input alone.
#[verifier::external_body]
pub(crate) fn sha256(bytes: &[u8]) -> (result: Vec<u8>)
    ensures
        result@ == sha256_of(bytes@),
        result@.len() == 32,
{
    let digest = <sha2::Sha256 as sha2::Digest>::digest(bytes);
    digest.to_vec()
}

} // verus!

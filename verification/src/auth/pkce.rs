//! PKCE (RFC 7636): the code verifier and its S256 challenge.

use vstd::prelude::*;
use vstd::string::*;
use vstd::utf8::encode_utf8;

use crate::outside::digest::{
    base64url, base64url_char, encode_base64url, sextet, sha256, sha256_of,
};
use crate::outside::random::random_bytes;

verus! {

/// A PKCE pair: the verifier, sent when the code is exchanged, and the challenge,
/// sent when the browser is opened.
#[derive(PartialEq, Eq)]
pub struct Pkce {
    pub verifier: String,
    pub challenge: String,
}

/// The S256 challenge of a verifier: the base64url text of its SHA-256.
pub open spec fn challenge_of(verifier: Seq<char>) -> Seq<char> {
    base64url(sha256_of(encode_utf8(verifier)))
}

/// base64url without padding.
pub fn base64url_no_pad(bytes: &[u8]) -> (result: String)
    ensures
        result@ == base64url(bytes@),
{
    encode_base64url(bytes)
}

/// The S256 challenge of a verifier.
pub fn s256_challenge(verifier: &str) -> (result: String)
    ensures
        result@ == challenge_of(verifier@),
{
    let digest = sha256(verifier.as_bytes());
    base64url_no_pad(digest.as_slice())
}

/// The pair made from thirty-two bytes: their base64url text, and its challenge.
pub fn from_random(raw: &[u8]) -> (result: Pkce)
    ensures
        result.verifier@ == base64url(raw@),
        result.challenge@ == challenge_of(result.verifier@),
{
    let verifier = base64url_no_pad(raw);
    let challenge = s256_challenge(verifier.as_str());
    Pkce { verifier, challenge }
}

/// A fresh pair from thirty-two random bytes. The verifier has 43 URL-safe
/// characters, within the 43 to 128 that RFC 7636 allows.
pub fn generate() -> (result: Pkce)
    ensures
        exists|raw: Seq<u8>| raw.len() == 32 && result.verifier@ == #[trigger] base64url(raw),
        result.verifier@.len() == 43,
        all_unreserved(result.verifier@),
        result.challenge@ == challenge_of(result.verifier@),
{
    let raw = random_bytes();
    proof {
        base64url_is_unreserved(raw@);
    }
    from_random(raw.as_slice())
}

/// A character that needs no escape in a URL (RFC 3986).
pub open spec fn is_unreserved(c: char) -> bool {
    ||| 'A' <= c <= 'Z'
    ||| 'a' <= c <= 'z'
    ||| '0' <= c <= '9'
    ||| c == '-'
    ||| c == '_'
    ||| c == '.'
    ||| c == '~'
}

/// `s` needs no escape in a URL.
pub open spec fn all_unreserved(s: Seq<char>) -> bool {
    forall|i: int| 0 <= i < s.len() ==> is_unreserved(#[trigger] s[i])
}

/// A base64url text needs no escape in a URL: it has no `+`, no `/` and no padding.
pub proof fn base64url_is_unreserved(bytes: Seq<u8>)
    ensures
        all_unreserved(base64url(bytes)),
{
    assert forall|i: int| 0 <= i < base64url(bytes).len() implies is_unreserved(
        #[trigger] base64url(bytes)[i],
    ) by {
        assert(0 <= sextet(bytes, i) < 64);
        assert(is_unreserved(base64url_char(sextet(bytes, i))));
    }
}

} // verus!

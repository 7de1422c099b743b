//! The CSRF nonce of the auth code flow: sent with the browser, echoed on the
//! redirect, and required to match.

use vstd::prelude::*;
use vstd::string::*;
use vstd::utf8::{encode_utf8, encode_utf8_decode_utf8};

use crate::auth::pkce::{all_unreserved, base64url_is_unreserved, base64url_no_pad};
use crate::outside::digest::base64url;
use crate::outside::random::random_bytes;

verus! {

/// A fresh nonce: the base64url text of thirty-two random bytes.
pub fn generate() -> (result: String)
    ensures
        exists|raw: Seq<u8>| raw.len() == 32 && result@ == #[trigger] base64url(raw),
        result@.len() == 43,
        all_unreserved(result@),
{
    let raw = random_bytes();
    proof {
        base64url_is_unreserved(raw@);
    }
    base64url_no_pad(raw.as_slice())
}

/// Whether the nonce on the redirect is the one that was sent. Every byte is
/// looked at, whatever the first difference is.
pub fn matches(expected: &str, returned: &str) -> (result: bool)
    ensures
        result == (expected@ == returned@),
{
    let a = expected.as_bytes();
    let b = returned.as_bytes();
    proof {
        encode_utf8_decode_utf8(expected@);
        encode_utf8_decode_utf8(returned@);
    }
    if a.len() != b.len() {
        return false;
    }
    let mut diff: u8 = 0;
    let mut i: usize = 0;
    while i < a.len()
        invariant
            i <= a@.len(),
            a@.len() == b@.len(),
            diff == 0 <==> forall|j: int| 0 <= j < i ==> a@[j] == b@[j],
        decreases a@.len() - i,
    {
        let x = a[i];
        let y = b[i];
        assert(((diff | (x ^ y)) == 0) == (diff == 0 && x == y)) by (bit_vector);
        diff = diff | (x ^ y);
        i = i + 1;
    }
    proof {
        if diff == 0 {
            assert(a@ =~= b@);
        }
    }
    diff == 0
}

} // verus!

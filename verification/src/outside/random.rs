//! Randomness: what is promised holds of every outcome.

use vstd::prelude::*;

verus! {

/// `c` is a lower-case hexadecimal digit.
pub open spec fn is_hex_digit(c: char) -> bool {
    ('0' <= c <= '9') || ('a' <= c <= 'f')
}

/// The hyphenated, lower-case text of a random UUID.
pub open spec fn is_uuid_text(s: Seq<char>) -> bool {
    &&& s.len() == 36
    &&& forall|i: int|
        0 <= i < 36 ==> if i == 8 || i == 13 || i == 18 || i == 23 {
            #[trigger] s[i] == '-'
        } else {
            is_hex_digit(s[i])
        }
    &&& s[14] == '4'
}

/// `uuid::Uuid::new_v4`, printed: some random UUID in its hyphenated form. Which
/// one is left to chance.
#[verifier::external_body]
pub(crate) fn random_uuid() -> (result: String)
    ensures
        is_uuid_text(result@),
{
    uuid::Uuid::new_v4().to_string()
}

/// `fill_bytes` of `rand::thread_rng`: thirty-two bytes left to chance.
#[verifier::external_body]
pub(crate) fn random_bytes() -> (result: Vec<u8>)
    ensures
        result@.len() == 32,
{
    let mut raw = [0u8; 32];
    rand::RngCore::fill_bytes(&mut rand::thread_rng(), &mut raw);
    raw.to_vec()
}

} // verus!

//! Buffers that are wiped when they are dropped: `zeroize` for plaintext on its
//! way through, `secrecy` for auth material that is held.

use vstd::prelude::*;
use vstd::string::*;

verus! {

/// A secret text on its way through memory, wiped on drop. Its `Debug` form never
/// shows the text.
#[verifier::external_body]
#[derive(Debug)]
pub struct Plaintext {
    inner: zeroize::Zeroizing<String>,
}

/// The text a [`Plaintext`] holds.
pub uninterp spec fn plaintext_of(p: Plaintext) -> Seq<char>;

impl View for Plaintext {
    type V = Seq<char>;

    open spec fn view(&self) -> Seq<char> {
        plaintext_of(*self)
    }
}

/// `zeroize::Zeroizing::new` moves the text in unchanged.
#[verifier::external_body]
fn zeroizing(text: String) -> (result: Plaintext)
    ensures
        plaintext_of(result) == text@,
{
    Plaintext { inner: zeroize::Zeroizing::new(text) }
}

/// `Deref` of `zeroize::Zeroizing` lends the text it holds.
#[verifier::external_body]
fn zeroizing_deref(p: &Plaintext) -> (result: &str)
    ensures
        result@ == plaintext_of(*p),
{
    p.inner.as_str()
}

impl Plaintext {
    /// Take a text into a buffer that is wiped on drop.
    pub fn new(text: String) -> (result: Plaintext)
        ensures
            result@ == text@,
    {
        zeroizing(text)
    }

    /// Lend the text.
    pub fn expose(&self) -> (result: &str)
        ensures
            result@ == self@,
    {
        zeroizing_deref(self)
    }

    /// Copy the text out of the wiped buffer.
    pub fn expose_owned(&self) -> (result: String)
        ensures
            result@ == self@,
    {
        zeroizing_deref(self).to_owned()
    }

    /// A second wiped buffer with the same text.
    pub fn duplicate(&self) -> (result: Plaintext)
        ensures
            result@ == self@,
    {
        zeroizing(self.expose_owned())
    }
}

/// Secret bytes on their way through memory, wiped on drop.
#[verifier::external_body]
#[derive(Debug)]
pub struct PlainBytes {
    inner: zeroize::Zeroizing<Vec<u8>>,
}

/// The bytes a [`PlainBytes`] holds.
pub uninterp spec fn plain_bytes_of(p: PlainBytes) -> Seq<u8>;

impl View for PlainBytes {
    type V = Seq<u8>;

    open spec fn view(&self) -> Seq<u8> {
        plain_bytes_of(*self)
    }
}

/// `zeroize::Zeroizing::new` moves the bytes in unchanged.
#[verifier::external_body]
fn zeroizing_bytes(bytes: Vec<u8>) -> (result: PlainBytes)
    ensures
        plain_bytes_of(result) == bytes@,
{
    PlainBytes { inner: zeroize::Zeroizing::new(bytes) }
}

/// `Deref` of `zeroize::Zeroizing` lends the bytes it holds.
#[verifier::external_body]
fn zeroizing_bytes_deref(p: &PlainBytes) -> (result: &[u8])
    ensures
        result@ == plain_bytes_of(*p),
{
    p.inner.as_slice()
}

impl PlainBytes {
    /// Take bytes into a buffer that is wiped on drop.
    pub fn new(bytes: Vec<u8>) -> (result: PlainBytes)
        ensures
            result@ == bytes@,
    {
        zeroizing_bytes(bytes)
    }

    /// Lend the bytes.
    pub fn expose(&self) -> (result: &[u8])
        ensures
            result@ == self@,
    {
        zeroizing_bytes_deref(self)
    }
}

/// Auth material: held in memory, wiped on drop, redacted by `Debug`.
#[verifier::external_body]
#[derive(Debug)]
pub struct SecretText {
    inner: secrecy::SecretString,
}

/// The text a [`SecretText`] holds.
pub uninterp spec fn secret_text_of(s: SecretText) -> Seq<char>;

impl View for SecretText {
    type V = Seq<char>;

    open spec fn view(&self) -> Seq<char> {
        secret_text_of(*self)
    }
}

/// `secrecy::SecretString::from` keeps the text it is given.
#[verifier::external_body]
fn secret_string(text: String) -> (result: SecretText)
    ensures
        secret_text_of(result) == text@,
{
    SecretText { inner: secrecy::SecretString::from(text) }
}

/// `secrecy::ExposeSecret::expose_secret` lends the text a `SecretString` holds.
#[verifier::external_body]
fn expose_secret(s: &SecretText) -> (result: &str)
    ensures
        result@ == secret_text_of(*s),
{
    secrecy::ExposeSecret::expose_secret(&s.inner)
}

impl SecretText {
    /// Take a text into custody.
    pub fn new(text: String) -> (result: SecretText)
        ensures
            result@ == text@,
    {
        secret_string(text)
    }

    /// Lend the text for one call. Callers must not keep it.
    pub fn expose(&self) -> (result: &str)
        ensures
            result@ == self@,
    {
        expose_secret(self)
    }
}

} // verus!

//! In-memory auth material, and the time it is measured against.

use vstd::prelude::*;
use vstd::string::*;

use crate::outside::secret::SecretText;
use crate::outside::show::{debug_field, debug_finish, debug_struct};

verus! {

/// A point in time: nanoseconds since the Unix epoch.
#[derive(Debug, Clone, Copy, PartialEq, Eq, Structural)]
pub struct Timestamp {
    pub nanos: i128,
}

/// How many nanoseconds a second has.
pub const NANOS_PER_SEC: u64 = 1_000_000_000;

/// How many nanoseconds a millisecond has.
pub const NANOS_PER_MILLI: u64 = 1_000_000;

/// The SSO access token. How long it lives in memory is how long the Session lives.
pub struct SsoToken {
    access_token: SecretText,
    /// When the token itself expires.
    pub expires_at: Timestamp,
}

/// An [`SsoToken`] as a mathematical value.
#[verifier::ext_equal]
pub struct SsoTokenView {
    pub access_token: Seq<char>,
    pub expires_at: Timestamp,
}

impl View for SsoToken {
    type V = SsoTokenView;

    closed spec fn view(&self) -> SsoTokenView {
        SsoTokenView { access_token: self.access_token@, expires_at: self.expires_at }
    }
}

impl SsoToken {
    pub fn new(access_token: String, expires_at: Timestamp) -> (result: SsoToken)
        ensures
            result@ == (SsoTokenView { access_token: access_token@, expires_at }),
    {
        SsoToken { access_token: SecretText::new(access_token), expires_at }
    }

    /// Lend the token's text for one call.
    pub fn expose(&self) -> (result: &str)
        ensures
            result@ == self@.access_token,
    {
        self.access_token.expose()
    }
}

impl std::fmt::Debug for SsoToken {
    /// Shows when the token expires, and nothing of its text.
    fn fmt(&self, f: &mut std::fmt::Formatter<'_>) -> std::fmt::Result {
        let mut shown = debug_struct(f, "SsoToken");
        debug_field(&mut shown, "expires_at", &self.expires_at);
        debug_finish(&mut shown)
    }
}

/// One Environment's short-lived role Credential.
pub struct Credential {
    access_key_id: SecretText,
    secret_access_key: SecretText,
    session_token: SecretText,
    pub expiration: Timestamp,
}

/// A [`Credential`] as a mathematical value.
#[verifier::ext_equal]
pub struct CredentialView {
    pub access_key_id: Seq<char>,
    pub secret_access_key: Seq<char>,
    pub session_token: Seq<char>,
    pub expiration: Timestamp,
}

impl View for Credential {
    type V = CredentialView;

    closed spec fn view(&self) -> CredentialView {
        CredentialView {
            access_key_id: self.access_key_id@,
            secret_access_key: self.secret_access_key@,
            session_token: self.session_token@,
            expiration: self.expiration,
        }
    }
}

impl std::fmt::Debug for Credential {
    /// Shows when the Credential expires, and nothing of its keys.
    fn fmt(&self, f: &mut std::fmt::Formatter<'_>) -> std::fmt::Result {
        let mut shown = debug_struct(f, "Credential");
        debug_field(&mut shown, "expiration", &self.expiration);
        debug_finish(&mut shown)
    }
}

impl CredentialView {
    /// Within `skew` nanoseconds of expiry, or past it.
    pub open spec fn stale(self, now: Timestamp, skew: u128) -> bool {
        now.nanos >= self.expiration.nanos - skew
    }
}

impl Credential {
    pub fn new(
        access_key_id: String,
        secret_access_key: String,
        session_token: String,
        expiration: Timestamp,
    ) -> (result: Credential)
        ensures
            result@ == (CredentialView {
                access_key_id: access_key_id@,
                secret_access_key: secret_access_key@,
                session_token: session_token@,
                expiration,
            }),
    {
        Credential {
            access_key_id: SecretText::new(access_key_id),
            secret_access_key: SecretText::new(secret_access_key),
            session_token: SecretText::new(session_token),
            expiration,
        }
    }

    pub fn access_key_id(&self) -> (result: &str)
        ensures
            result@ == self@.access_key_id,
    {
        self.access_key_id.expose()
    }

    pub fn secret_access_key(&self) -> (result: &str)
        ensures
            result@ == self@.secret_access_key,
    {
        self.secret_access_key.expose()
    }

    pub fn session_token(&self) -> (result: &str)
        ensures
            result@ == self@.session_token,
    {
        self.session_token.expose()
    }

    /// A second holder of the same Credential.
    pub fn duplicate(&self) -> (result: Credential)
        ensures
            result@ == self@,
    {
        Credential {
            access_key_id: SecretText::new(self.access_key_id.expose().to_owned()),
            secret_access_key: SecretText::new(self.secret_access_key.expose().to_owned()),
            session_token: SecretText::new(self.session_token.expose().to_owned()),
            expiration: self.expiration,
        }
    }

    /// Whether this Credential is to be minted again before it is used: it is
    /// within `skew` nanoseconds of expiry, or past it.
    pub fn is_stale(&self, now: Timestamp, skew: u128) -> (result: bool)
        ensures
            result == self@.stale(now, skew),
            now.nanos >= self@.expiration.nanos ==> result,
            now.nanos + skew < self@.expiration.nanos ==> !result,
    {
        match self.expiration.nanos.checked_sub_unsigned(skew) {
            Some(deadline) => now.nanos >= deadline,
            None => true,
        }
    }
}

} // verus!

//! The browser Sign-in: an authorization code flow with PKCE and a CSRF nonce,
//! turn by turn.

use vstd::prelude::*;
use vstd::string::*;
use vstd::utf8::encode_utf8;

use crate::auth::error::{SignInError, SignInErrorView};
use crate::auth::loopback::{param, query_param, redirect_uris};
use crate::auth::pkce::{self, all_unreserved, challenge_of, is_unreserved, Pkce};
use crate::auth::state;
use crate::auth::types::{SsoToken, SsoTokenView};
use crate::auth::wire::{ClientRegistration, ClientRegistrationView, TokenExchange};
use crate::text::views;

verus! {

/// The upper-case hexadecimal digit for four bits.
pub open spec fn upper_hex(four: int) -> char {
    if four < 10 {
        ('0' as int + four) as char
    } else {
        ('A' as int + (four - 10)) as char
    }
}

/// One byte in a URL: itself where it needs no escape, else `%XX`.
pub open spec fn escaped_byte(b: u8) -> Seq<char> {
    if is_unreserved(b as char) {
        seq![b as char]
    } else {
        seq!['%', upper_hex(b as int / 16), upper_hex(b as int % 16)]
    }
}

/// Bytes in a URL.
pub open spec fn escaped(bytes: Seq<u8>) -> Seq<char>
    decreases bytes.len(),
{
    if bytes.len() == 0 {
        Seq::empty()
    } else {
        escaped_byte(bytes[0]) + escaped(bytes.skip(1))
    }
}

/// A text in a URL: its UTF-8 bytes, each escaped where it has to be.
pub open spec fn urlencoded(s: Seq<char>) -> Seq<char> {
    escaped(encode_utf8(s))
}

fn hex_digit_of(four: u8) -> (result: char)
    requires
        four < 16,
    ensures
        result == upper_hex(four as int),
{
    if four < 10 {
        ('0' as u8 + four) as char
    } else {
        ('A' as u8 + (four - 10)) as char
    }
}

/// Percent-encode a URL query value, keeping the RFC 3986 unreserved characters.
pub fn urlencode(s: &str) -> (result: String)
    ensures
        result@ == urlencoded(s@),
{
    let bytes = s.as_bytes();
    let ghost all = bytes@;
    let mut out = String::new();
    let mut i: usize = 0;
    assert(all.skip(0) =~= all);
    assert(out@ + escaped(all) =~= escaped(all));
    while i < bytes.len()
        invariant
            i <= bytes@.len(),
            all == bytes@,
            all == encode_utf8(s@),
            escaped(all) == out@ + escaped(all.skip(i as int)),
        decreases bytes@.len() - i,
    {
        let b = bytes[i];
        let c = b as char;
        let ghost before = out@;
        let ghost rest = all.skip(i as int);
        assert(rest.skip(1) =~= all.skip(i + 1));
        if ('A' <= c && c <= 'Z') || ('a' <= c && c <= 'z') || ('0' <= c && c <= '9') || c == '-'
            || c == '_' || c == '.' || c == '~' {
            out.push(c);
            assert(out@ =~= before + escaped_byte(b));
        } else {
            out.push('%');
            out.push(hex_digit_of(b / 16));
            out.push(hex_digit_of(b % 16));
            assert(out@ =~= before + escaped_byte(b));
        }
        assert(before + (escaped_byte(b) + escaped(all.skip(i + 1))) =~= (before + escaped_byte(b))
            + escaped(all.skip(i + 1)));
        i = i + 1;
    }
    proof {
        assert(all.skip(i as int) =~= Seq::<u8>::empty());
        assert(out@ + Seq::<char>::empty() =~= out@);
    }
    out
}

// ---------------------------------------------------------------------------
// The authorize URL
// ---------------------------------------------------------------------------

/// The query of the authorize URL.
pub open spec fn authorize_query(
    client_id: Seq<char>,
    redirect_uri: Seq<char>,
    challenge: Seq<char>,
    nonce: Seq<char>,
) -> Seq<char> {
    "response_type=code&client_id="@ + urlencoded(client_id) + "&redirect_uri="@ + urlencoded(
        redirect_uri,
    ) + "&code_challenge="@ + urlencoded(challenge) + "&code_challenge_method=S256&state="@
        + urlencoded(nonce) + "&scopes=sso:account:access"@
}

/// Where the browser is sent.
pub open spec fn authorize_url_of(
    registration: ClientRegistrationView,
    redirect_uri: Seq<char>,
    challenge: Seq<char>,
    nonce: Seq<char>,
) -> Seq<char> {
    registration.authorization_endpoint + "?"@ + authorize_query(
        registration.client_id,
        redirect_uri,
        challenge,
        nonce,
    )
}

/// Build the authorize URL.
pub fn authorize_url(
    registration: &ClientRegistration,
    redirect_uri: &str,
    challenge: &str,
    nonce: &str,
) -> (result: String)
    ensures
        result@ == authorize_url_of(registration@, redirect_uri@, challenge@, nonce@),
{
    let mut query = "response_type=code&client_id=".to_owned();
    query.push_str(urlencode(registration.client_id.as_str()).as_str());
    query.push_str("&redirect_uri=");
    query.push_str(urlencode(redirect_uri).as_str());
    query.push_str("&code_challenge=");
    query.push_str(urlencode(challenge).as_str());
    query.push_str("&code_challenge_method=S256&state=");
    query.push_str(urlencode(nonce).as_str());
    query.push_str("&scopes=sso:account:access");
    let mut out = registration.authorization_endpoint.clone();
    out.push_str("?");
    out.push_str(query.as_str());
    out
}

// ---------------------------------------------------------------------------
// The turns of a Sign-in
// ---------------------------------------------------------------------------

/// How long to wait for the user to complete the Sign-in, in seconds.
pub const SIGN_IN_TIMEOUT_SECS: u64 = 180;

/// A Sign-in that waits for a public client to be registered.
#[derive(Debug)]
pub struct RegisterTurn {
    issuer_url: String,
}

/// A Sign-in that waits for a loopback port to be bound.
pub struct ListenTurn {
    registration: ClientRegistration,
}

/// A Sign-in that waits for the browser to be opened.
pub struct OpenTurn {
    registration: ClientRegistration,
    redirect_uri: String,
    verifier: String,
    nonce: String,
    url: String,
}

/// A Sign-in that waits for the redirect.
pub struct RedirectTurn {
    registration: ClientRegistration,
    redirect_uri: String,
    verifier: String,
    nonce: String,
}

/// A Sign-in that waits for the code to be exchanged for a token.
pub struct ExchangeTurn {
    registration: ClientRegistration,
    redirect_uri: String,
    verifier: String,
    code: String,
}

/// Where a Sign-in stands.
pub enum SignInStep {
    Register(RegisterTurn),
    Listen(ListenTurn),
    Open(OpenTurn),
    Redirect(RedirectTurn),
    Exchange(ExchangeTurn),
    Done(Result<SsoToken, SignInError>),
}

/// A [`SignInStep`] as a mathematical value.
#[verifier::ext_equal]
pub enum SignInStepView {
    Register { issuer_url: Seq<char> },
    Listen { registration: ClientRegistrationView },
    Open {
        registration: ClientRegistrationView,
        redirect_uri: Seq<char>,
        verifier: Seq<char>,
        nonce: Seq<char>,
        url: Seq<char>,
    },
    Redirect {
        registration: ClientRegistrationView,
        redirect_uri: Seq<char>,
        verifier: Seq<char>,
        nonce: Seq<char>,
    },
    Exchange {
        registration: ClientRegistrationView,
        redirect_uri: Seq<char>,
        verifier: Seq<char>,
        code: Seq<char>,
    },
    Done(Result<SsoTokenView, SignInErrorView>),
}

/// A token or an error as a mathematical value.
pub open spec fn token_reply(r: Result<SsoToken, SignInError>) -> Result<
    SsoTokenView,
    SignInErrorView,
> {
    match r {
        Ok(token) => Ok(token@),
        Err(e) => Err(e@),
    }
}

impl RegisterTurn {
    /// The instance to register with.
    pub closed spec fn issuer_url_view(&self) -> Seq<char> {
        self.issuer_url@
    }
}

impl View for RegisterTurn {
    type V = SignInStepView;

    open spec fn view(&self) -> SignInStepView {
        SignInStepView::Register { issuer_url: self.issuer_url_view() }
    }
}

impl ListenTurn {
    /// The registered client.
    pub closed spec fn registration_view(&self) -> ClientRegistrationView {
        self.registration@
    }
}

impl View for ListenTurn {
    type V = SignInStepView;

    open spec fn view(&self) -> SignInStepView {
        SignInStepView::Listen { registration: self.registration_view() }
    }
}

impl OpenTurn {
    /// The registered client.
    pub closed spec fn registration_view(&self) -> ClientRegistrationView {
        self.registration@
    }

    /// Where the redirect goes.
    pub closed spec fn redirect_uri_view(&self) -> Seq<char> {
        self.redirect_uri@
    }

    /// The PKCE verifier.
    pub closed spec fn verifier_view(&self) -> Seq<char> {
        self.verifier@
    }

    /// The nonce the redirect has to echo.
    pub closed spec fn nonce_view(&self) -> Seq<char> {
        self.nonce@
    }

    /// The URL to open.
    pub closed spec fn url_view(&self) -> Seq<char> {
        self.url@
    }
}

impl View for OpenTurn {
    type V = SignInStepView;

    open spec fn view(&self) -> SignInStepView {
        SignInStepView::Open {
            registration: self.registration_view(),
            redirect_uri: self.redirect_uri_view(),
            verifier: self.verifier_view(),
            nonce: self.nonce_view(),
            url: self.url_view(),
        }
    }
}

impl RedirectTurn {
    /// The registered client.
    pub closed spec fn registration_view(&self) -> ClientRegistrationView {
        self.registration@
    }

    /// Where the redirect goes.
    pub closed spec fn redirect_uri_view(&self) -> Seq<char> {
        self.redirect_uri@
    }

    /// The PKCE verifier.
    pub closed spec fn verifier_view(&self) -> Seq<char> {
        self.verifier@
    }

    /// The nonce the redirect has to echo.
    pub closed spec fn nonce_view(&self) -> Seq<char> {
        self.nonce@
    }
}

impl View for RedirectTurn {
    type V = SignInStepView;

    open spec fn view(&self) -> SignInStepView {
        SignInStepView::Redirect {
            registration: self.registration_view(),
            redirect_uri: self.redirect_uri_view(),
            verifier: self.verifier_view(),
            nonce: self.nonce_view(),
        }
    }
}

impl ExchangeTurn {
    /// The registered client.
    pub closed spec fn registration_view(&self) -> ClientRegistrationView {
        self.registration@
    }

    /// Where the redirect goes.
    pub closed spec fn redirect_uri_view(&self) -> Seq<char> {
        self.redirect_uri@
    }

    /// The PKCE verifier.
    pub closed spec fn verifier_view(&self) -> Seq<char> {
        self.verifier@
    }

    /// The code to exchange.
    pub closed spec fn code_view(&self) -> Seq<char> {
        self.code@
    }
}

impl View for ExchangeTurn {
    type V = SignInStepView;

    open spec fn view(&self) -> SignInStepView {
        SignInStepView::Exchange {
            registration: self.registration_view(),
            redirect_uri: self.redirect_uri_view(),
            verifier: self.verifier_view(),
            code: self.code_view(),
        }
    }
}

impl View for SignInStep {
    type V = SignInStepView;

    open spec fn view(&self) -> SignInStepView {
        match self {
            SignInStep::Register(t) => t@,
            SignInStep::Listen(t) => t@,
            SignInStep::Open(t) => t@,
            SignInStep::Redirect(t) => t@,
            SignInStep::Exchange(t) => t@,
            SignInStep::Done(r) => SignInStepView::Done(token_reply(*r)),
        }
    }
}

/// The step after the client was registered.
pub open spec fn after_register(
    reply: Result<ClientRegistrationView, SignInErrorView>,
) -> SignInStepView {
    match reply {
        Ok(registration) => SignInStepView::Listen { registration },
        Err(e) => SignInStepView::Done(Err(e)),
    }
}

/// The step after a port was bound, with this PKCE pair and nonce. The URL carries
/// the URI of the port that was bound.
pub open spec fn after_listen(
    registration: ClientRegistrationView,
    redirect_uri: Seq<char>,
    verifier: Seq<char>,
    challenge: Seq<char>,
    nonce: Seq<char>,
) -> SignInStepView {
    SignInStepView::Open {
        registration,
        redirect_uri,
        verifier,
        nonce,
        url: authorize_url_of(registration, redirect_uri, challenge, nonce),
    }
}

/// The step after the browser was opened, or could not be.
pub open spec fn after_open(
    turn: SignInStepView,
    reply: Result<(), SignInErrorView>,
) -> SignInStepView
    recommends
        turn is Open,
{
    match reply {
        Err(e) => SignInStepView::Done(Err(e)),
        Ok(()) => SignInStepView::Redirect {
            registration: turn->Open_registration,
            redirect_uri: turn->Open_redirect_uri,
            verifier: turn->Open_verifier,
            nonce: turn->Open_nonce,
        },
    }
}

/// The step after the redirect arrived with `query`: the nonce is looked at first,
/// and the code only where it matches.
pub open spec fn after_redirect(turn: SignInStepView, query: Seq<char>) -> SignInStepView
    recommends
        turn is Redirect,
{
    let returned = match param(query, "state"@) {
        Some(nonce) => nonce,
        None => Seq::empty(),
    };
    if returned != turn->Redirect_nonce {
        SignInStepView::Done(Err(SignInErrorView::StateMismatch))
    } else {
        match param(query, "code"@) {
            None => SignInStepView::Done(Err(SignInErrorView::TokenEndpoint)),
            Some(code) => SignInStepView::Exchange {
                registration: turn->Redirect_registration,
                redirect_uri: turn->Redirect_redirect_uri,
                verifier: turn->Redirect_verifier,
                code,
            },
        }
    }
}

/// Signs in at one Identity Center instance.
#[derive(Debug)]
pub struct Authenticator {
    issuer_url: String,
}

impl View for Authenticator {
    type V = Seq<char>;

    /// The instance's issuer URL.
    closed spec fn view(&self) -> Seq<char> {
        self.issuer_url@
    }
}

impl Authenticator {
    /// Sign in at the instance `issuer_url`.
    pub fn new(issuer_url: String) -> (result: Authenticator)
        ensures
            result@ == issuer_url@,
    {
        Authenticator { issuer_url }
    }

    /// Begin one Sign-in: the client is registered first.
    pub fn sign_in_once(&self) -> (result: SignInStep)
        ensures
            result@ == (SignInStepView::Register { issuer_url: self@ }),
    {
        SignInStep::Register(RegisterTurn { issuer_url: self.issuer_url.clone() })
    }
}

impl RegisterTurn {
    /// The instance to register with.
    pub fn issuer_url(&self) -> (result: &str)
        ensures
            result@ == self@->issuer_url,
    {
        self.issuer_url.as_str()
    }

    /// The redirect URIs to register.
    pub fn redirect_uris(&self) -> (result: Vec<String>)
        ensures
            views(result@) == seq!["http://127.0.0.1/oauth/callback"@],
    {
        redirect_uris()
    }

    /// Take the registration.
    pub fn resume(self, reply: Result<ClientRegistration, SignInError>) -> (result: SignInStep)
        ensures
            result@ == after_register(
                match reply {
                    Ok(registration) => Ok(registration@),
                    Err(e) => Err(e@),
                },
            ),
    {
        match reply {
            Ok(registration) => SignInStep::Listen(ListenTurn { registration }),
            Err(e) => SignInStep::Done(Err(e)),
        }
    }
}

impl ListenTurn {
    /// Take the redirect URI of the port that was bound. The verifier and the nonce
    /// are fresh: 43 random URL-safe characters each.
    pub fn resume(self, reply: Result<String, SignInError>) -> (result: SignInStep)
        ensures
            match reply {
                Err(e) => result@ == SignInStepView::Done(Err(e@)),
                Ok(uri) => exists|verifier: Seq<char>, nonce: Seq<char>|
                    verifier.len() == 43 && nonce.len() == 43 && all_unreserved(verifier)
                        && all_unreserved(nonce) && result@ == #[trigger] after_listen(
                        self@->Listen_registration,
                        uri@,
                        verifier,
                        challenge_of(verifier),
                        nonce,
                    ),
            },
    {
        let pair = pkce::generate();
        let nonce = state::generate();
        self.resume_with(reply, pair, nonce)
    }

    /// Take the redirect URI of the port that was bound, with this PKCE pair and
    /// nonce.
    pub fn resume_with(
        self,
        reply: Result<String, SignInError>,
        pair: Pkce,
        nonce: String,
    ) -> (result: SignInStep)
        ensures
            result@ == match reply {
                Err(e) => SignInStepView::Done(Err(e@)),
                Ok(uri) => after_listen(
                    self@->Listen_registration,
                    uri@,
                    pair.verifier@,
                    pair.challenge@,
                    nonce@,
                ),
            },
    {
        match reply {
            Err(e) => SignInStep::Done(Err(e)),
            Ok(redirect_uri) => {
                let url = authorize_url(
                    &self.registration,
                    redirect_uri.as_str(),
                    pair.challenge.as_str(),
                    nonce.as_str(),
                );
                SignInStep::Open(
                    OpenTurn {
                        registration: self.registration,
                        redirect_uri,
                        verifier: pair.verifier,
                        nonce,
                        url,
                    },
                )
            },
        }
    }
}

impl OpenTurn {
    /// The URL to open.
    pub fn url(&self) -> (result: &str)
        ensures
            result@ == self@->url,
    {
        self.url.as_str()
    }

    /// Go on after the browser was opened, or could not be.
    pub fn resume(self, reply: Result<(), SignInError>) -> (result: SignInStep)
        ensures
            result@ == after_open(
                self@,
                match reply {
                    Ok(()) => Ok(()),
                    Err(e) => Err(e@),
                },
            ),
    {
        match reply {
            Err(e) => SignInStep::Done(Err(e)),
            Ok(()) => SignInStep::Redirect(
                RedirectTurn {
                    registration: self.registration,
                    redirect_uri: self.redirect_uri,
                    verifier: self.verifier,
                    nonce: self.nonce,
                },
            ),
        }
    }
}

impl RedirectTurn {
    /// Take the query of the redirect. A nonce that does not match ends the Sign-in
    /// before the code is looked at.
    pub fn resume(self, reply: Result<String, SignInError>) -> (result: SignInStep)
        ensures
            result@ == match reply {
                Err(e) => SignInStepView::Done(Err(e@)),
                Ok(query) => after_redirect(self@, query@),
            },
    {
        let query = match reply {
            Err(e) => return SignInStep::Done(Err(e)),
            Ok(query) => query,
        };
        let returned = match query_param(query.as_str(), "state") {
            Some(nonce) => nonce,
            None => String::new(),
        };
        if !state::matches(self.nonce.as_str(), returned.as_str()) {
            return SignInStep::Done(Err(SignInError::StateMismatch));
        }
        match query_param(query.as_str(), "code") {
            None => SignInStep::Done(Err(SignInError::TokenEndpoint)),
            Some(code) => SignInStep::Exchange(
                ExchangeTurn {
                    registration: self.registration,
                    redirect_uri: self.redirect_uri,
                    verifier: self.verifier,
                    code,
                },
            ),
        }
    }
}

impl ExchangeTurn {
    /// What to exchange.
    pub fn exchange(&self) -> (result: TokenExchange<'_>)
        ensures
            result.registration@ == self@->Exchange_registration,
            result.code@ == self@->code,
            result.code_verifier@ == self@->Exchange_verifier,
            result.redirect_uri@ == self@->Exchange_redirect_uri,
    {
        TokenExchange {
            registration: &self.registration,
            code: self.code.as_str(),
            code_verifier: self.verifier.as_str(),
            redirect_uri: self.redirect_uri.as_str(),
        }
    }

    /// Take the token.
    pub fn resume(self, reply: Result<SsoToken, SignInError>) -> (result: SignInStep)
        ensures
            result@ == SignInStepView::Done(token_reply(reply)),
    {
        SignInStep::Done(reply)
    }
}

} // verus!

//! What the AWS SDK's answers mean: errors by their code, registrations, expiries
//! and pages.

use vstd::prelude::*;
use vstd::string::*;

use crate::auth::error::{SessionError, SessionErrorView, SignInError};
use crate::auth::types::{Credential, SsoToken, Timestamp, NANOS_PER_MILLI, NANOS_PER_SEC};
use crate::auth::wire::{AccountSummary, ClientRegistration, ClientRegistrationView, RoleSummary};
use crate::text::same;

verus! {

/// An SDK error, as far as its classification looks at it.
#[derive(Debug, PartialEq, Eq)]
pub enum SdkFailure {
    /// The service answered with an error.
    Service { code: Option<String>, message: Option<String> },
    Timeout,
    Dispatch,
    Construction,
    Response,
    Unknown,
}

/// An optional text as a mathematical value.
pub open spec fn text_option(s: Option<String>) -> Option<Seq<char>> {
    match s {
        Some(s) => Some(s@),
        None => None,
    }
}

impl SdkFailure {
    /// The service's error code.
    pub open spec fn code(&self) -> Option<Seq<char>> {
        match self {
            SdkFailure::Service { code, message } => text_option(*code),
            _ => None,
        }
    }

    /// An error-safe account of the error: the service's code and message, or a
    /// fixed phrase.
    pub open spec fn detail(&self) -> Seq<char> {
        match self {
            SdkFailure::Service { code, message } => {
                let c = match code {
                    Some(c) => c@,
                    None => "Unknown"@,
                };
                match message {
                    Some(m) => c + ": "@ + m@,
                    None => c,
                }
            },
            SdkFailure::Timeout => "request timed out"@,
            SdkFailure::Dispatch => "network/dispatch failure"@,
            SdkFailure::Construction => "request construction failure"@,
            SdkFailure::Response => "unexpected response"@,
            SdkFailure::Unknown => "unknown error"@,
        }
    }
}

/// An error-safe account of an SDK error. An error body holds a code, a message and
/// at times a name or a location, never a Value, a token or a Credential.
pub fn err_detail(e: &SdkFailure) -> (result: String)
    ensures
        result@ == e.detail(),
{
    match e {
        SdkFailure::Service { code, message } => {
            let mut out = match code {
                Some(c) => c.clone(),
                None => "Unknown".to_owned(),
            };
            match message {
                Some(m) => {
                    out.push_str(": ");
                    out.push_str(m.as_str());
                },
                None => {},
            }
            out
        },
        SdkFailure::Timeout => "request timed out".to_owned(),
        SdkFailure::Dispatch => "network/dispatch failure".to_owned(),
        SdkFailure::Construction => "request construction failure".to_owned(),
        SdkFailure::Response => "unexpected response".to_owned(),
        SdkFailure::Unknown => "unknown error".to_owned(),
    }
}

/// The operation whose errors can mean a dead token or a role that is not granted.
pub open spec fn role_op() -> Seq<char> {
    "GetRoleCredentials"@
}

/// What an error code of an operation means. Only an invalid or expired token at the
/// role step asks for a fresh Sign-in. A denial there is one of entitlement; a
/// denial anywhere else is plain. An unknown code keeps its detail.
pub open spec fn classified(
    op: Seq<char>,
    code: Option<Seq<char>>,
    detail: Seq<char>,
) -> SessionErrorView {
    let role = op == role_op();
    match code {
        None => SessionErrorView::Sdk { context: detail },
        Some(c) => if role && (c == "UnauthorizedException"@ || c == "ExpiredTokenException"@) {
            SessionErrorView::ReauthRequired
        } else if role && (c == "ForbiddenException"@ || c == "AccessDeniedException"@ || c
            == "AccessDenied"@) {
            SessionErrorView::RoleNotEntitled { context: detail }
        } else if c == "AccessDeniedException"@ || c == "AccessDenied"@ {
            SessionErrorView::AccessDenied
        } else if c == "ResourceNotFoundException"@ {
            SessionErrorView::NotFound
        } else if c == "ThrottlingException"@ || c == "TooManyRequestsException"@ || c
            == "ThrottledException"@ {
            SessionErrorView::Throttled
        } else {
            SessionErrorView::Sdk { context: detail }
        },
    }
}

/// Classify an AWS error code.
pub fn classify_aws(op: &str, code: Option<&str>, detail: String) -> (result: SessionError)
    ensures
        result@ == classified(
            op@,
            match code {
                Some(c) => Some(c@),
                None => None,
            },
            detail@,
        ),
{
    let role = same(op, "GetRoleCredentials");
    match code {
        None => SessionError::Sdk { context: detail },
        Some(c) => {
            if role && (same(c, "UnauthorizedException") || same(c, "ExpiredTokenException")) {
                SessionError::ReauthRequired
            } else if role && (same(c, "ForbiddenException") || same(c, "AccessDeniedException")
                || same(c, "AccessDenied")) {
                SessionError::RoleNotEntitled { context: detail }
            } else if same(c, "AccessDeniedException") || same(c, "AccessDenied") {
                SessionError::AccessDenied
            } else if same(c, "ResourceNotFoundException") {
                SessionError::NotFound
            } else if same(c, "ThrottlingException") || same(c, "TooManyRequestsException")
                || same(c, "ThrottledException") {
                SessionError::Throttled
            } else {
                SessionError::Sdk { context: detail }
            }
        },
    }
}

/// Classify an SDK error of operation `op`.
pub fn map_aws_err(op: &str, e: &SdkFailure) -> (result: SessionError)
    ensures
        result@ == classified(op@, e.code(), e.detail()),
{
    let detail = err_detail(e);
    match e {
        SdkFailure::Service { code: Some(code), message: _ } => classify_aws(
            op,
            Some(code.as_str()),
            detail,
        ),
        _ => classify_aws(op, None, detail),
    }
}

/// Classify an SDK error of the role step.
pub fn map_role_err(e: &SdkFailure) -> (result: SessionError)
    ensures
        result@ == classified(role_op(), e.code(), e.detail()),
{
    map_aws_err("GetRoleCredentials", e)
}

/// The authorize endpoint: what the registration gave, else the regional one.
pub open spec fn endpoint_for(from_response: Option<Seq<char>>, region: Seq<char>) -> Seq<char> {
    match from_response {
        Some(s) => if s.len() > 0 {
            s
        } else {
            "https://oidc."@ + region + ".amazonaws.com/authorize"@
        },
        None => "https://oidc."@ + region + ".amazonaws.com/authorize"@,
    }
}

/// The authorize endpoint for a registration. AWS gives none for some instances.
pub fn authorize_endpoint(from_response: Option<&str>, region: &str) -> (result: String)
    ensures
        result@ == endpoint_for(
            match from_response {
                Some(s) => Some(s@),
                None => None,
            },
            region@,
        ),
{
    if let Some(s) = from_response {
        if !s.is_empty() {
            return s.to_owned();
        }
    }
    let mut out = "https://oidc.".to_owned();
    out.push_str(region);
    out.push_str(".amazonaws.com/authorize");
    out
}

/// A text, or the empty text where there is none.
pub open spec fn or_empty(s: Option<Seq<char>>) -> Seq<char> {
    match s {
        Some(s) => s,
        None => Seq::empty(),
    }
}

/// A text, or the empty text where there is none.
pub fn text_or_empty(s: Option<String>) -> (result: String)
    ensures
        result@ == or_empty(text_option(s)),
{
    match s {
        Some(s) => s,
        None => String::new(),
    }
}

/// The registration that `RegisterClient` answered with.
pub fn registration(
    client_id: Option<String>,
    client_secret: Option<String>,
    authorization_endpoint: Option<String>,
    region: &str,
) -> (result: ClientRegistration)
    ensures
        result@ == (ClientRegistrationView {
            client_id: or_empty(text_option(client_id)),
            client_secret: or_empty(text_option(client_secret)),
            authorization_endpoint: endpoint_for(text_option(authorization_endpoint), region@),
        }),
{
    ClientRegistration {
        client_id: text_or_empty(client_id),
        client_secret: text_or_empty(client_secret),
        authorization_endpoint: authorize_endpoint(
            match &authorization_endpoint {
                Some(s) => Some(s.as_str()),
                None => None,
            },
            region,
        ),
    }
}

/// The nanoseconds since the epoch at which something ends that is good for so many seconds
/// from `now`.
pub open spec fn after_seconds(now: Timestamp, seconds: i32) -> int {
    if seconds > 0 {
        now.nanos + seconds * 1_000_000_000
    } else {
        now.nanos as int
    }
}

/// The nanoseconds since the epoch of a count of milliseconds.
pub open spec fn at_millis(millis: i64) -> int {
    if millis > 0 {
        millis * 1_000_000
    } else {
        0
    }
}

/// When a token that is good for `expires_in` seconds from `now` expires. A negative
/// count is none.
pub fn token_expiry(now: Timestamp, expires_in: i32) -> (result: Timestamp)
    requires
        now.nanos <= i128::MAX - i32::MAX * NANOS_PER_SEC,
    ensures
        result.nanos == now.nanos + (if expires_in > 0 {
            expires_in as int
        } else {
            0
        }) * NANOS_PER_SEC,
        result.nanos == after_seconds(now, expires_in),
{
    let secs: i128 = if expires_in > 0 {
        expires_in as i128
    } else {
        0
    };
    assert(secs * NANOS_PER_SEC <= i32::MAX * NANOS_PER_SEC) by (nonlinear_arith)
        requires
            0 <= secs <= i32::MAX,
    ;
    Timestamp { nanos: now.nanos + secs * NANOS_PER_SEC as i128 }
}

/// The expiry that `GetRoleCredentials` gave in milliseconds since the epoch. A
/// negative one is the epoch.
pub fn credential_expiry(millis: i64) -> (result: Timestamp)
    ensures
        result.nanos == (if millis > 0 {
            millis as int
        } else {
            0
        }) * NANOS_PER_MILLI,
        result.nanos == at_millis(millis),
{
    let kept: i128 = if millis > 0 {
        millis as i128
    } else {
        0
    };
    assert(0 <= kept * NANOS_PER_MILLI <= i64::MAX * NANOS_PER_MILLI) by (nonlinear_arith)
        requires
            0 <= kept <= i64::MAX,
    ;
    Timestamp { nanos: kept * NANOS_PER_MILLI as i128 }
}

/// The SSO token that `CreateToken` answered with. An answer without one is a failed
/// exchange.
pub fn issued_token(access_token: Option<String>, now: Timestamp, expires_in: i32) -> (result:
    Result<SsoToken, SignInError>)
    requires
        now.nanos <= i128::MAX - i32::MAX * NANOS_PER_SEC,
    ensures
        match access_token {
            Some(access) => {
                &&& result is Ok
                &&& result->Ok_0@.access_token == access@
                &&& result->Ok_0@.expires_at.nanos == now.nanos + (if expires_in > 0 {
                    expires_in as int
                } else {
                    0
                }) * NANOS_PER_SEC
            },
            None => result == Err::<SsoToken, SignInError>(SignInError::TokenEndpoint),
        },
{
    match access_token {
        Some(access) => Ok(SsoToken::new(access, token_expiry(now, expires_in))),
        None => Err(SignInError::TokenEndpoint),
    }
}

/// The keys of a role, as `GetRoleCredentials` gave them.
pub struct RoleKeys {
    pub access_key_id: Option<String>,
    pub secret_access_key: Option<String>,
    pub session_token: Option<String>,
    /// In milliseconds since the epoch.
    pub expiration: i64,
}

/// The Credential that `GetRoleCredentials` answered with. An answer without keys is
/// an error.
pub fn minted_credential(keys: Option<RoleKeys>) -> (result: Result<Credential, SessionError>)
    ensures
        match keys {
            Some(k) => {
                &&& result is Ok
                &&& result->Ok_0@.access_key_id == or_empty(text_option(k.access_key_id))
                &&& result->Ok_0@.secret_access_key == or_empty(text_option(k.secret_access_key))
                &&& result->Ok_0@.session_token == or_empty(text_option(k.session_token))
                &&& result->Ok_0@.expiration.nanos == (if k.expiration > 0 {
                    k.expiration as int
                } else {
                    0
                }) * NANOS_PER_MILLI
            },
            None => result is Err && result->Err_0@ == (SessionErrorView::Sdk {
                context: "GetRoleCredentials(empty)"@,
            }),
        },
{
    match keys {
        Some(k) => Ok(
            Credential::new(
                text_or_empty(k.access_key_id),
                text_or_empty(k.secret_access_key),
                text_or_empty(k.session_token),
                credential_expiry(k.expiration),
            ),
        ),
        None => Err(SessionError::Sdk { context: "GetRoleCredentials(empty)".to_owned() }),
    }
}

/// An account as `ListAccounts` gave it.
pub fn account_summary(id: Option<String>, name: Option<String>) -> (result: AccountSummary)
    ensures
        result.id@ == or_empty(text_option(id)),
        result.name@ == or_empty(text_option(name)),
{
    AccountSummary { id: text_or_empty(id), name: text_or_empty(name) }
}

/// A role as `ListAccountRoles` gave it.
pub fn role_summary(name: Option<String>) -> (result: RoleSummary)
    ensures
        result.name@ == or_empty(text_option(name)),
{
    RoleSummary { name: text_or_empty(name) }
}

// ---------------------------------------------------------------------------
// Pages
// ---------------------------------------------------------------------------

/// A listing in progress: what the pages so far held, and the token of the page to
/// ask for next (none for the first).
#[derive(Debug)]
pub struct Pages<T> {
    items: Vec<T>,
    next: Option<String>,
}

/// Where a listing stands after a page.
#[derive(Debug)]
pub enum PageStep<T> {
    /// Ask for the next page.
    More(Pages<T>),
    /// Every page has come.
    Done(Vec<T>),
}

/// A page as a mathematical value: its items, and the token of the page after it.
pub struct PageView<T> {
    pub items: Seq<T>,
    pub next: Option<Seq<char>>,
}

/// Where a listing stands, as a mathematical value.
#[verifier::ext_equal]
pub enum PageStepView<T> {
    More { so_far: Seq<T>, token: Option<Seq<char>> },
    Done(Seq<T>),
}

impl<T> PageStep<T> {
    /// This step as a mathematical value.
    pub open spec fn view(&self) -> PageStepView<T> {
        match self {
            PageStep::More(pages) => PageStepView::More {
                so_far: pages.so_far(),
                token: pages.token(),
            },
            PageStep::Done(items) => PageStepView::Done(items@),
        }
    }
}

/// The step after a page: its items come behind those so far, and a page with no token
/// after it is the last.
pub open spec fn after_page<T>(so_far: Seq<T>, page: PageView<T>) -> PageStepView<T> {
    match page.next {
        Some(t) => PageStepView::More { so_far: so_far + page.items, token: Some(t) },
        None => PageStepView::Done(so_far + page.items),
    }
}

impl<T> Pages<T> {
    /// What the pages so far held, in order.
    pub closed spec fn so_far(&self) -> Seq<T> {
        self.items@
    }

    /// The token of the page to ask for next.
    pub closed spec fn token(&self) -> Option<Seq<char>> {
        text_option(self.next)
    }

    /// Begin a listing.
    pub fn new() -> (result: Self)
        ensures
            result.so_far() == Seq::<T>::empty(),
            result.token() is None,
    {
        Pages { items: Vec::new(), next: None }
    }

    /// The token to ask for the next page with.
    pub fn next_token(&self) -> (result: Option<&str>)
        ensures
            match result {
                Some(t) => self.token() == Some(t@),
                None => self.token() is None,
            },
    {
        match &self.next {
            Some(t) => Some(t.as_str()),
            None => None,
        }
    }

    /// Take a page: its items, and the token of the page after it.
    pub fn resume(self, page: Vec<T>, next_token: Option<String>) -> (result: PageStep<T>)
        ensures
            result.view() == after_page(
                self.so_far(),
                PageView { items: page@, next: text_option(next_token) },
            ),
    {
        let mut items = self.items;
        let mut page = page;
        items.append(&mut page);
        match next_token {
            Some(t) => PageStep::More(Pages { items, next: Some(t) }),
            None => PageStep::Done(items),
        }
    }
}

/// Where a listing stands after these pages.
pub open spec fn listing<T>(pages: Seq<PageView<T>>) -> PageStepView<T>
    decreases pages.len(),
{
    if pages.len() == 0 {
        PageStepView::More { so_far: Seq::empty(), token: None }
    } else {
        after_page(listing(pages.drop_last())->so_far, pages.last())
    }
}

/// Each page was asked for: the listing waited for it.
pub open spec fn is_listing<T>(pages: Seq<PageView<T>>) -> bool
    decreases pages.len(),
{
    pages.len() == 0 || (is_listing(pages.drop_last()) && listing(pages.drop_last()) is More)
}

/// The items of all the pages, in order.
pub open spec fn joined<T>(pages: Seq<PageView<T>>) -> Seq<T>
    decreases pages.len(),
{
    if pages.len() == 0 {
        Seq::empty()
    } else {
        joined(pages.drop_last()) + pages.last().items
    }
}

/// A listing gives the items of all its pages, in order, once a page names no page after
/// it. The first page is asked for without a token, and every other one with the token
/// that the page before it gave.
pub proof fn a_listing_joins_its_pages<T>(pages: Seq<PageView<T>>)
    requires
        is_listing(pages),
    ensures
        match listing(pages) {
            PageStepView::More { so_far, .. } => so_far == joined(pages) && (pages.len() > 0
                ==> pages.last().next is Some),
            PageStepView::Done(items) => items == joined(pages) && pages.len() > 0
                && pages.last().next is None,
        },
        forall|i: int|
            0 <= i < pages.len() ==> #[trigger] listing(pages.take(i)) == (PageStepView::More {
                so_far: joined(pages.take(i)),
                token: if i == 0 {
                    None
                } else {
                    pages[i - 1].next
                },
            }),
    decreases pages.len(),
{
    if pages.len() > 0 {
        let before = pages.drop_last();
        a_listing_joins_its_pages(before);
        assert forall|i: int| 0 <= i < pages.len() implies #[trigger] listing(pages.take(i)) == (
        PageStepView::More {
            so_far: joined(pages.take(i)),
            token: if i == 0 {
                None
            } else {
                pages[i - 1].next
            },
        }) by {
            if i < before.len() {
                assert(pages.take(i) =~= before.take(i));
            } else {
                assert(pages.take(i) =~= before);
            }
        }
    }
}

} // verus!

//! The two error taxonomies: why a Sign-in failed, and why an operation on a live
//! Session failed. Each is classified so that a caller can tell re-auth from
//! denial from retry. A `context` is a short label or an AWS error code and
//! message, never a body.

use vstd::prelude::*;
use vstd::string::*;

use crate::model::provider::{FetchFailReason, SignInFailed};

verus! {

/// Why a browser Sign-in failed. None of these implies that a live Session exists.
#[derive(Debug, PartialEq, Eq)]
pub enum SignInError {
    BrowserLaunch,
    ListenerTimeout,
    NoLoopbackPort,
    StateMismatch,
    TokenEndpoint,
    Network,
    Sdk { context: String },
}

/// A [`SignInError`] as a mathematical value.
#[verifier::ext_equal]
pub enum SignInErrorView {
    BrowserLaunch,
    ListenerTimeout,
    NoLoopbackPort,
    StateMismatch,
    TokenEndpoint,
    Network,
    Sdk { context: Seq<char> },
}

impl View for SignInError {
    type V = SignInErrorView;

    open spec fn view(&self) -> SignInErrorView {
        match self {
            SignInError::BrowserLaunch => SignInErrorView::BrowserLaunch,
            SignInError::ListenerTimeout => SignInErrorView::ListenerTimeout,
            SignInError::NoLoopbackPort => SignInErrorView::NoLoopbackPort,
            SignInError::StateMismatch => SignInErrorView::StateMismatch,
            SignInError::TokenEndpoint => SignInErrorView::TokenEndpoint,
            SignInError::Network => SignInErrorView::Network,
            SignInError::Sdk { context } => SignInErrorView::Sdk { context: context@ },
        }
    }
}

impl SignInErrorView {
    /// The message shown for this error.
    pub open spec fn message(self) -> Seq<char> {
        match self {
            SignInErrorView::BrowserLaunch => "could not launch a browser for Sign-in"@,
            SignInErrorView::ListenerTimeout => "timed out waiting for the Sign-in redirect"@,
            SignInErrorView::NoLoopbackPort =>
                "the Sign-in redirect could not be bound to a loopback port"@,
            SignInErrorView::StateMismatch => "the Sign-in redirect failed CSRF state validation"@,
            SignInErrorView::TokenEndpoint =>
                "the Identity Center token endpoint rejected the Sign-in"@,
            SignInErrorView::Network => "a network error occurred during Sign-in"@,
            SignInErrorView::Sdk { context } => "Sign-in failed: "@ + context,
        }
    }
}

impl SignInError {
    /// The message shown for this error.
    pub fn to_string(&self) -> (result: String)
        ensures
            result@ == self@.message(),
    {
        match self {
            SignInError::BrowserLaunch => "could not launch a browser for Sign-in".to_owned(),
            SignInError::ListenerTimeout => "timed out waiting for the Sign-in redirect".to_owned(),
            SignInError::NoLoopbackPort =>
                "the Sign-in redirect could not be bound to a loopback port".to_owned(),
            SignInError::StateMismatch =>
                "the Sign-in redirect failed CSRF state validation".to_owned(),
            SignInError::TokenEndpoint =>
                "the Identity Center token endpoint rejected the Sign-in".to_owned(),
            SignInError::Network => "a network error occurred during Sign-in".to_owned(),
            SignInError::Sdk { context } => {
                let mut out = "Sign-in failed: ".to_owned();
                out.push_str(context.as_str());
                out
            },
        }
    }
}

/// Why an operation on a live Session failed.
#[derive(Debug, PartialEq, Eq)]
pub enum SessionError {
    /// The SSO token is dead. The only variant that may open a browser.
    ReauthRequired,
    /// Refused under policy.
    AccessDenied,
    /// The user does not have the Mapping's permission set on its account.
    RoleNotEntitled { context: String },
    /// The secret id or region does not resolve to a Set.
    NotFound,
    /// Throttled or transient.
    Throttled,
    /// Content that cannot be handled.
    Unsupported,
    /// Anything else, by a short label or AWS code and message.
    Sdk { context: String },
}

/// A [`SessionError`] as a mathematical value.
#[verifier::ext_equal]
pub enum SessionErrorView {
    ReauthRequired,
    AccessDenied,
    RoleNotEntitled { context: Seq<char> },
    NotFound,
    Throttled,
    Unsupported,
    Sdk { context: Seq<char> },
}

impl View for SessionError {
    type V = SessionErrorView;

    open spec fn view(&self) -> SessionErrorView {
        match self {
            SessionError::ReauthRequired => SessionErrorView::ReauthRequired,
            SessionError::AccessDenied => SessionErrorView::AccessDenied,
            SessionError::RoleNotEntitled { context } => SessionErrorView::RoleNotEntitled {
                context: context@,
            },
            SessionError::NotFound => SessionErrorView::NotFound,
            SessionError::Throttled => SessionErrorView::Throttled,
            SessionError::Unsupported => SessionErrorView::Unsupported,
            SessionError::Sdk { context } => SessionErrorView::Sdk { context: context@ },
        }
    }
}

impl SessionErrorView {
    /// The message shown for this error.
    pub open spec fn message(self) -> Seq<char> {
        match self {
            SessionErrorView::ReauthRequired =>
                "the Session expired; a fresh Sign-in is required"@,
            SessionErrorView::AccessDenied => "access denied for this Mapping"@,
            SessionErrorView::RoleNotEntitled { context } => "not entitled to this role: "@
                + context,
            SessionErrorView::NotFound => "no secret found for this Mapping"@,
            SessionErrorView::Throttled => "the request was throttled or hit a transient error"@,
            SessionErrorView::Unsupported => "unsupported secret content for this operation"@,
            SessionErrorView::Sdk { context } => "AWS call failed: "@ + context,
        }
    }

    /// The reason this error is reported as. A role denial that was not recovered
    /// is plain "access denied".
    pub open spec fn reason(self) -> FetchFailReason {
        match self {
            SessionErrorView::ReauthRequired => FetchFailReason::NeedsSignIn,
            SessionErrorView::AccessDenied => FetchFailReason::AccessDenied,
            SessionErrorView::RoleNotEntitled { .. } => FetchFailReason::AccessDenied,
            SessionErrorView::NotFound => FetchFailReason::NotFound,
            SessionErrorView::Throttled => FetchFailReason::Throttled,
            SessionErrorView::Unsupported => FetchFailReason::Unsupported,
            SessionErrorView::Sdk { .. } => FetchFailReason::Other,
        }
    }
}

impl SessionError {
    /// The message shown for this error.
    pub fn to_string(&self) -> (result: String)
        ensures
            result@ == self@.message(),
    {
        match self {
            SessionError::ReauthRequired =>
                "the Session expired; a fresh Sign-in is required".to_owned(),
            SessionError::AccessDenied => "access denied for this Mapping".to_owned(),
            SessionError::RoleNotEntitled { context } => {
                let mut out = "not entitled to this role: ".to_owned();
                out.push_str(context.as_str());
                out
            },
            SessionError::NotFound => "no secret found for this Mapping".to_owned(),
            SessionError::Throttled =>
                "the request was throttled or hit a transient error".to_owned(),
            SessionError::Unsupported => "unsupported secret content for this operation".to_owned(),
            SessionError::Sdk { context } => {
                let mut out = "AWS call failed: ".to_owned();
                out.push_str(context.as_str());
                out
            },
        }
    }
}

impl<'a> From<&'a SessionError> for FetchFailReason {
    fn from(e: &'a SessionError) -> (result: FetchFailReason) {
        match e {
            SessionError::ReauthRequired => FetchFailReason::NeedsSignIn,
            SessionError::AccessDenied => FetchFailReason::AccessDenied,
            SessionError::RoleNotEntitled { .. } => FetchFailReason::AccessDenied,
            SessionError::NotFound => FetchFailReason::NotFound,
            SessionError::Throttled => FetchFailReason::Throttled,
            SessionError::Unsupported => FetchFailReason::Unsupported,
            SessionError::Sdk { .. } => FetchFailReason::Other,
        }
    }
}

impl<'a> vstd::std_specs::convert::FromSpecImpl<&'a SessionError> for FetchFailReason {
    open spec fn obeys_from_spec() -> bool {
        true
    }

    open spec fn from_spec(e: &'a SessionError) -> FetchFailReason {
        e@.reason()
    }
}

/// A failed Sign-in as the port reports it: by its message alone.
pub fn sign_in_failed(e: &SignInError) -> (result: SignInFailed)
    ensures
        result.message@ == e@.message(),
{
    SignInFailed { message: e.to_string() }
}

} // verus!

//! What a resource Method's read or write can fail with.

use vstd::prelude::*;
use vstd::string::*;

use crate::auth::error::{SessionError, SessionErrorView};
use crate::model::provider::FetchFailReason;

verus! {

/// A failed read or write.
#[derive(Debug, PartialEq, Eq)]
pub enum MethodError {
    /// An auth, transport or SDK failure. The resilience ladder may act on it.
    Session(SessionError),
    /// The payload is unusable. Trying again cannot help.
    Content { detail: String },
}

/// A [`MethodError`] as a mathematical value.
#[verifier::ext_equal]
pub enum MethodErrorView {
    Session(SessionErrorView),
    Content { detail: Seq<char> },
}

impl View for MethodError {
    type V = MethodErrorView;

    open spec fn view(&self) -> MethodErrorView {
        match self {
            MethodError::Session(e) => MethodErrorView::Session(e@),
            MethodError::Content { detail } => MethodErrorView::Content { detail: detail@ },
        }
    }
}

impl MethodErrorView {
    /// The reason this failure is reported as.
    pub open spec fn reason(self) -> FetchFailReason {
        match self {
            MethodErrorView::Session(e) => e.reason(),
            MethodErrorView::Content { .. } => FetchFailReason::Unsupported,
        }
    }

    /// The detail this failure is reported with.
    pub open spec fn detail(self) -> Seq<char> {
        match self {
            MethodErrorView::Session(e) => e.message(),
            MethodErrorView::Content { detail } => detail,
        }
    }

    /// The SSO token is dead.
    pub open spec fn is_reauth(self) -> bool {
        self == MethodErrorView::Session(SessionErrorView::ReauthRequired)
    }
}

impl MethodError {
    /// The masked classification.
    pub fn reason(&self) -> (result: FetchFailReason)
        ensures
            result == self@.reason(),
    {
        match self {
            MethodError::Session(e) => FetchFailReason::from(e),
            MethodError::Content { .. } => FetchFailReason::Unsupported,
        }
    }

    /// An error-safe detail for the banner and the log.
    pub fn detail(&self) -> (result: String)
        ensures
            result@ == self@.detail(),
    {
        match self {
            MethodError::Session(e) => e.to_string(),
            MethodError::Content { detail } => detail.clone(),
        }
    }

    /// Whether this is a dead-token failure.
    pub fn is_reauth(&self) -> (result: bool)
        ensures
            result == self@.is_reauth(),
    {
        match self {
            MethodError::Session(SessionError::ReauthRequired) => true,
            _ => false,
        }
    }
}

} // verus!

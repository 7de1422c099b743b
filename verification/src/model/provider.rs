//! What a Provider answers: masked failures, loaded Sets, and the steps of a
//! guided walk. Nothing here carries SDK text, a Credential or a Value.

use vstd::prelude::*;
use vstd::string::*;

use crate::model::config::{Mapping, MappingView};
use crate::model::matrix::MatrixView;
use crate::text::views;

verus! {

/// Why one Environment's fetch failed.
#[derive(Debug, Clone, Copy, PartialEq, Eq, Structural)]
pub enum FetchFailReason {
    /// A fresh browser Sign-in is required.
    NeedsSignIn,
    /// Refused under policy.
    AccessDenied,
    /// The secret id or region does not resolve.
    NotFound,
    /// Throttled or transient.
    Throttled,
    /// Content that cannot be handled.
    Unsupported,
    /// Anything else.
    Other,
}

impl FetchFailReason {
    /// The phrase shown for this reason.
    pub open spec fn phrase(self) -> Seq<char> {
        match self {
            FetchFailReason::NeedsSignIn => "session expired — sign in again"@,
            FetchFailReason::AccessDenied => "access denied"@,
            FetchFailReason::NotFound => "secret not found"@,
            FetchFailReason::Throttled => "throttled, try again"@,
            FetchFailReason::Unsupported => "unsupported secret content"@,
            FetchFailReason::Other => "AWS error"@,
        }
    }

    /// A short, user-facing phrase.
    pub fn describe(self) -> (result: &'static str)
        ensures
            result@ == self.phrase(),
    {
        match self {
            FetchFailReason::NeedsSignIn => "session expired — sign in again",
            FetchFailReason::AccessDenied => "access denied",
            FetchFailReason::NotFound => "secret not found",
            FetchFailReason::Throttled => "throttled, try again",
            FetchFailReason::Unsupported => "unsupported secret content",
            FetchFailReason::Other => "AWS error",
        }
    }
}

/// One Environment's failure: its name, the reason, and an error-safe detail.
#[derive(Debug, PartialEq, Eq)]
pub struct Failure {
    pub environment: String,
    pub reason: FetchFailReason,
    pub detail: String,
}

/// A [`Failure`] as a mathematical value.
#[verifier::ext_equal]
pub struct FailureView {
    pub environment: Seq<char>,
    pub reason: FetchFailReason,
    pub detail: Seq<char>,
}

impl View for Failure {
    type V = FailureView;

    open spec fn view(&self) -> FailureView {
        FailureView {
            environment: self.environment@,
            reason: self.reason,
            detail: self.detail@,
        }
    }
}

/// The views of a list of failures.
pub open spec fn failure_views(v: Seq<Failure>) -> Seq<FailureView> {
    v.map_values(|f: Failure| f@)
}

/// A whole-Application load failure: at least one Environment failed, so there is
/// no matrix to show.
#[derive(Debug, PartialEq, Eq)]
pub struct AppError {
    pub failures: Vec<Failure>,
}

/// The failure that stands for a Sign-in that did not happen.
pub open spec fn sign_in_needed() -> FailureView {
    FailureView {
        environment: "(sign-in)"@,
        reason: FetchFailReason::NeedsSignIn,
        detail: "a fresh Sign-in is required"@,
    }
}

impl AppError {
    /// The synthetic "you must sign in first" error: no real Environment failed.
    pub fn needs_sign_in() -> (result: AppError)
        ensures
            failure_views(result.failures@) == seq![sign_in_needed()],
    {
        let mut failures: Vec<Failure> = Vec::new();
        failures.push(
            Failure {
                environment: "(sign-in)".to_owned(),
                reason: FetchFailReason::NeedsSignIn,
                detail: "a fresh Sign-in is required".to_owned(),
            },
        );
        assert(failure_views(failures@) =~= seq![sign_in_needed()]);
        AppError { failures }
    }
}

/// A successful load: the masked matrix, and the Mappings whose permission set was
/// corrected on the way.
#[derive(Debug, PartialEq, Eq)]
pub struct Loaded {
    pub view: MatrixView,
    pub corrected: Vec<Mapping>,
}

/// A Sign-in that failed, as an error-safe message.
#[derive(Debug, PartialEq, Eq)]
pub struct SignInFailed {
    pub message: String,
}

/// What a step of a guided walk asks for.
#[derive(Debug, Clone, Copy, PartialEq, Eq, Structural)]
pub enum What {
    Accounts,
    Roles,
    Secrets,
    Instances,
    FilePath,
}

/// Where a guided walk stands: waiting for a pick or a text, or at its end.
#[derive(Debug, PartialEq, Eq)]
#[allow(inconsistent_fields)]
pub enum Step {
    /// Pick one of `choices`; `default` is the one to offer.
    Ask { what: What, choices: Vec<String>, default: Option<usize> },
    /// Type a text; `default` is the one to offer.
    Input { what: What, prompt: String, default: Option<String> },
    /// The Environment is mapped.
    Done(Mapping),
    /// There was nothing to pick from.
    Empty(What),
    /// The walk failed.
    Failed(FetchFailReason),
    /// A fresh Sign-in is required.
    Reauth,
}

/// A [`Step`] as a mathematical value.
#[verifier::ext_equal]
#[allow(inconsistent_fields)]
pub enum StepView {
    Ask { what: What, choices: Seq<Seq<char>>, default: Option<usize> },
    Input { what: What, prompt: Seq<char>, default: Option<Seq<char>> },
    Done(MappingView),
    Empty(What),
    Failed(FetchFailReason),
    Reauth,
}

impl View for Step {
    type V = StepView;

    open spec fn view(&self) -> StepView {
        match self {
            Step::Ask { what, choices, default } => StepView::Ask {
                what: *what,
                choices: views(choices@),
                default: *default,
            },
            Step::Input { what, prompt, default } => StepView::Input {
                what: *what,
                prompt: prompt@,
                default: match default {
                    Some(d) => Some(d@),
                    None => None,
                },
            },
            Step::Done(m) => StepView::Done(m@),
            Step::Empty(what) => StepView::Empty(*what),
            Step::Failed(reason) => StepView::Failed(*reason),
            Step::Reauth => StepView::Reauth,
        }
    }
}

} // verus!

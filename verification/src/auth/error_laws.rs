//! How errors are told apart, and what of them is shown.

use vstd::prelude::*;

use crate::auth::error::{SessionErrorView, SignInErrorView};
use crate::auth::method::MethodErrorView;
use crate::aws::method::masked_write_error;
use crate::aws::secret_write::SecretWriteErrorView;
use crate::model::provider::FetchFailReason;
use crate::model::write::EnvWriteError;

verus! {

/// Each reason stands for its own errors and no others: a Sign-in is asked for on a dead
/// token alone, and both kinds of denial are denials.
pub proof fn a_reason_tells_its_errors(e: SessionErrorView)
    ensures
        e.reason() == FetchFailReason::NeedsSignIn <==> e is ReauthRequired,
        e.reason() == FetchFailReason::AccessDenied <==> e is AccessDenied
            || e is RoleNotEntitled,
        e.reason() == FetchFailReason::NotFound <==> e is NotFound,
        e.reason() == FetchFailReason::Throttled <==> e is Throttled,
        e.reason() == FetchFailReason::Unsupported <==> e is Unsupported,
        e.reason() == FetchFailReason::Other <==> e is Sdk,
{
}

/// The failure of a read or a write is reported by its error: a call by that call's reason
/// and message, a payload as content that cannot be handled, with its detail.
pub proof fn a_method_error_is_reported_as_it_is(e: MethodErrorView)
    ensures
        match e {
            MethodErrorView::Session(call) => {
                &&& e.reason() == call.reason()
                &&& e.detail() == call.message()
                &&& e.is_reauth() <==> call is ReauthRequired
            },
            MethodErrorView::Content { detail: said } => {
                &&& e.reason() == FetchFailReason::Unsupported
                &&& e.detail() == said
                &&& !e.is_reauth()
            },
        },
{
}

/// A message that carries a context ends with it, behind words of its own.
pub proof fn a_message_ends_with_its_context(e: SessionErrorView, s: SignInErrorView)
    ensures
        match e {
            SessionErrorView::Sdk { context } => e.message() == "AWS call failed: "@ + context,
            SessionErrorView::RoleNotEntitled { context } => e.message()
                == "not entitled to this role: "@ + context,
            _ => true,
        },
        match s {
            SignInErrorView::Sdk { context } => s.message() == "Sign-in failed: "@ + context,
            _ => true,
        },
{
}

/// Errors of one kind that read the same carry the same context.
pub proof fn a_context_is_never_lost(a: SessionErrorView, b: SessionErrorView)
    requires
        (a is Sdk && b is Sdk) || (a is RoleNotEntitled && b is RoleNotEntitled),
        a.message() == b.message(),
    ensures
        a == b,
{
    match (a, b) {
        (SessionErrorView::Sdk { context: x }, SessionErrorView::Sdk { context: y }) => {
            lemma_same_tail("AWS call failed: "@, x, y);
        },
        (
            SessionErrorView::RoleNotEntitled { context: x },
            SessionErrorView::RoleNotEntitled { context: y },
        ) => {
            lemma_same_tail("not entitled to this role: "@, x, y);
        },
        _ => {},
    }
}

proof fn lemma_same_tail(head: Seq<char>, a: Seq<char>, b: Seq<char>)
    ensures
        head + a == head + b ==> a == b,
{
    if head + a == head + b {
        assert(a =~= (head + a).skip(head.len() as int));
        assert(b =~= (head + b).skip(head.len() as int));
    }
}

/// A failed write is masked by what failed: a call is handed on as it is, for the ladder to
/// act on, and what cannot be written is unsupported content.
pub proof fn a_failed_write_is_masked(e: SessionErrorView)
    ensures
        masked_write_error(SecretWriteErrorView::Session(e)) == MethodErrorView::Session(e),
        masked_write_error(SecretWriteErrorView::NotFlat) == (MethodErrorView::Content {
            detail: "secret is not a flat JSON object (cannot merge safely)"@,
        }),
        masked_write_error(SecretWriteErrorView::Edit(EnvWriteError::InvalidKey)) == (
        MethodErrorView::Content { detail: "invalid key"@ }),
        SecretWriteErrorView::Session(e).reason() == e.reason(),
        SecretWriteErrorView::Session(e).detail() == e.message(),
        SecretWriteErrorView::NotFlat.reason() == FetchFailReason::Unsupported,
        SecretWriteErrorView::Edit(EnvWriteError::InvalidKey).reason()
            == FetchFailReason::Unsupported,
{
}

/// What is shown for each error of a session.
pub proof fn each_session_error_has_its_message(e: SessionErrorView)
    ensures
        e is ReauthRequired ==> e.message()
            == "the Session expired; a fresh Sign-in is required"@,
        e is AccessDenied ==> e.message() == "access denied for this Mapping"@,
        e is NotFound ==> e.message() == "no secret found for this Mapping"@,
        e is Throttled ==> e.message() == "the request was throttled or hit a transient error"@,
        e is Unsupported ==> e.message() == "unsupported secret content for this operation"@,
{
}

/// What is shown for each error of a Sign-in.
pub proof fn each_sign_in_error_has_its_message(e: SignInErrorView)
    ensures
        e is BrowserLaunch ==> e.message() == "could not launch a browser for Sign-in"@,
        e is ListenerTimeout ==> e.message() == "timed out waiting for the Sign-in redirect"@,
        e is NoLoopbackPort ==> e.message()
            == "the Sign-in redirect could not be bound to a loopback port"@,
        e is StateMismatch ==> e.message()
            == "the Sign-in redirect failed CSRF state validation"@,
        e is TokenEndpoint ==> e.message()
            == "the Identity Center token endpoint rejected the Sign-in"@,
        e is Network ==> e.message() == "a network error occurred during Sign-in"@,
{
}

} // verus!

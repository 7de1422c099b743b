//! How the errors of AWS are told apart.

use vstd::prelude::*;

use crate::auth::aws_impl::{classified, endpoint_for, or_empty, SdkFailure};
use crate::auth::error::SessionErrorView;
use crate::aws::aws_impl::stage_outcome;
use crate::aws::wire::CasOutcome;

verus! {

/// The code of a denial.
pub open spec fn is_denial(code: Seq<char>) -> bool {
    code == "AccessDeniedException"@ || code == "AccessDenied"@
}

/// A fresh Sign-in is asked for only where a role's Credentials are minted, and only for a
/// token that is invalid or expired; the same codes anywhere else are errors like any.
pub proof fn only_the_role_step_asks_for_a_sign_in(
    op: Seq<char>,
    code: Option<Seq<char>>,
    detail: Seq<char>,
)
    ensures
        classified(op, code, detail) is ReauthRequired <==> op == "GetRoleCredentials"@ && (code
            == Some("UnauthorizedException"@) || code == Some("ExpiredTokenException"@)),
{
}

/// A denial where a role's Credentials are minted is one of entitlement, and keeps its
/// detail; a denial anywhere else is plain.
pub proof fn a_denial_is_told_by_its_step(
    op: Seq<char>,
    code: Option<Seq<char>>,
    detail: Seq<char>,
)
    ensures
        classified(op, code, detail) is RoleNotEntitled <==> op == "GetRoleCredentials"@ && (code
            == Some("ForbiddenException"@) || (code is Some && is_denial(code->0))),
        classified(op, code, detail) is RoleNotEntitled ==> classified(op, code, detail) == (
        SessionErrorView::RoleNotEntitled { context: detail }),
        classified(op, code, detail) is AccessDenied <==> op != "GetRoleCredentials"@ && code
            is Some && is_denial(code->0),
{
    lemma_codes_differ();
}

/// What is not found and what is throttled are told by their codes, at every step, and
/// whatever has no other meaning keeps its detail.
pub proof fn any_other_code_keeps_its_detail(
    op: Seq<char>,
    code: Option<Seq<char>>,
    detail: Seq<char>,
)
    ensures
        ({
            let e = classified(op, code, detail);
            &&& e is NotFound <==> code == Some("ResourceNotFoundException"@)
            &&& e is Throttled <==> code == Some("ThrottlingException"@) || code == Some(
                "TooManyRequestsException"@,
            ) || code == Some("ThrottledException"@)
            &&& e is Sdk ==> e == (SessionErrorView::Sdk { context: detail })
            &&& code is None ==> e is Sdk
            &&& !(e is Unsupported)
        }),
{
    lemma_codes_differ();
}

proof fn lemma_codes_differ()
    ensures
        "ResourceNotFoundException"@.len() == 25,
        "ThrottlingException"@.len() == 19,
        "TooManyRequestsException"@.len() == 24,
        "ThrottledException"@.len() == 18,
        "UnauthorizedException"@.len() == 21,
        "ExpiredTokenException"@.len() == 21,
        "ForbiddenException"@.len() == 18,
        "ForbiddenException"@[0] == 'F',
        "ThrottledException"@[0] == 'T',
        "AccessDeniedException"@.len() == 21,
        "AccessDeniedException"@[0] == 'A',
        "UnauthorizedException"@[0] == 'U',
        "ExpiredTokenException"@[0] == 'E',
        "AccessDenied"@.len() == 12,
{
    reveal_strlit("ResourceNotFoundException");
    reveal_strlit("ThrottlingException");
    reveal_strlit("TooManyRequestsException");
    reveal_strlit("ThrottledException");
    reveal_strlit("UnauthorizedException");
    reveal_strlit("ExpiredTokenException");
    reveal_strlit("ForbiddenException");
    reveal_strlit("AccessDeniedException");
    reveal_strlit("AccessDenied");
}

/// A move of the label that was refused is a lost race exactly where its precondition
/// failed, and is never taken for a success; any other error is told as everywhere.
pub proof fn a_refused_move_is_never_a_success(code: Option<Seq<char>>, detail: Seq<char>)
    ensures
        ({
            let lost = code == Some("InvalidParameterException"@) || code == Some(
                "InvalidRequestException"@,
            );
            &&& stage_outcome(code, detail) != Ok::<CasOutcome, SessionErrorView>(
                CasOutcome::Committed,
            )
            &&& stage_outcome(code, detail) == Ok::<CasOutcome, SessionErrorView>(
                CasOutcome::Mismatch,
            ) <==> lost
            &&& stage_outcome(code, detail) is Err ==> stage_outcome(code, detail)->Err_0
                == classified("UpdateSecretVersionStage"@, code, detail)
        }),
{
}

/// A move of the label is no step that asks for a Sign-in or looks for another role.
pub proof fn a_refused_move_asks_for_no_sign_in(code: Option<Seq<char>>, detail: Seq<char>)
    requires
        stage_outcome(code, detail) is Err,
    ensures
        !(stage_outcome(code, detail)->Err_0 is ReauthRequired),
        !(stage_outcome(code, detail)->Err_0 is RoleNotEntitled),
{
    reveal_strlit("UpdateSecretVersionStage");
    reveal_strlit("GetRoleCredentials");
    assert("UpdateSecretVersionStage"@.len() != "GetRoleCredentials"@.len());
}

/// What is told of an error is what the service said: its code, and its message behind it.
/// An error without a service behind it has no code.
pub proof fn an_error_is_told_by_its_code_and_message(e: SdkFailure)
    ensures
        match e {
            SdkFailure::Service { code: Some(c), message: Some(m) } => e.code() == Some(c@)
                && e.detail() == c@ + ": "@ + m@,
            SdkFailure::Service { code: Some(c), message: None } => e.code() == Some(c@)
                && e.detail() == c@,
            SdkFailure::Service { code: None, message: Some(m) } => e.code() is None && e.detail()
                == "Unknown"@ + ": "@ + m@,
            SdkFailure::Service { code: None, message: None } => e.code() is None && e.detail()
                == "Unknown"@,
            _ => e.code() is None,
        },
{
}

/// The authorize endpoint is what the registration gave, and the regional one where it gave
/// none.
pub proof fn a_given_endpoint_is_used(given: Seq<char>, region: Seq<char>)
    ensures
        given.len() > 0 ==> endpoint_for(Some(given), region) == given,
        endpoint_for(None, region) == "https://oidc."@ + region + ".amazonaws.com/authorize"@,
        given.len() == 0 ==> endpoint_for(Some(given), region) == endpoint_for(None, region),
{
}

/// A text that is there is taken as it is, and one that is not is empty.
pub proof fn a_text_that_is_there_is_taken(text: Seq<char>)
    ensures
        or_empty(Some(text)) == text,
        or_empty(None).len() == 0,
{
}

} // verus!

//! What the Secrets Manager SDK's answers mean.

use vstd::prelude::*;
use vstd::string::*;

use crate::auth::aws_impl::{
    classified, map_aws_err, or_empty, text_option, text_or_empty, SdkFailure,
};
use crate::auth::error::{SessionError, SessionErrorView};
use crate::aws::wire::{CasOutcome, SecretSummary};
use crate::text::same;

verus! {

/// The Secrets Manager client. It holds nothing: each call is made with the
/// Credential it is given.
#[derive(Debug, Clone, Copy, PartialEq, Eq, Structural)]
pub struct AwsSecretsApi;

impl AwsSecretsApi {
    pub fn new() -> (result: Self)
        ensures
            result == AwsSecretsApi,
    {
        AwsSecretsApi
    }
}

impl Default for AwsSecretsApi {
    fn default() -> (result: Self)
        ensures
            result == AwsSecretsApi,
    {
        AwsSecretsApi::new()
    }
}

/// Classify a Secrets Manager error.
pub fn map_secret_err(e: &SdkFailure) -> (result: SessionError)
    ensures
        result@ == classified("SecretsManager"@, e.code(), e.detail()),
{
    map_aws_err("SecretsManager", e)
}

/// What an error of a label move means: a precondition that failed is a race that
/// was lost, anything else is an error.
pub open spec fn stage_outcome(code: Option<Seq<char>>, detail: Seq<char>) -> Result<
    CasOutcome,
    SessionErrorView,
> {
    if code == Some("InvalidParameterException"@) || code == Some("InvalidRequestException"@) {
        Ok(CasOutcome::Mismatch)
    } else {
        Err(classified("UpdateSecretVersionStage"@, code, detail))
    }
}

/// Classify an error of a label move. A lost race is never taken for a success.
pub fn classify_stage_err(e: &SdkFailure) -> (result: Result<CasOutcome, SessionError>)
    ensures
        match stage_outcome(e.code(), e.detail()) {
            Ok(outcome) => result == Ok::<CasOutcome, SessionError>(outcome),
            Err(err) => result is Err && result->Err_0@ == err,
        },
{
    if let SdkFailure::Service { code: Some(code), message: _ } = e {
        if same(code.as_str(), "InvalidParameterException") || same(
            code.as_str(),
            "InvalidRequestException",
        ) {
            return Ok(CasOutcome::Mismatch);
        }
    }
    Err(map_aws_err("UpdateSecretVersionStage", e))
}

/// A secret as `ListSecrets` gave it.
pub fn secret_summary(name: Option<String>, arn: Option<String>) -> (result: SecretSummary)
    ensures
        result.name@ == or_empty(text_option(name)),
        result.arn@ == or_empty(text_option(arn)),
{
    SecretSummary { name: text_or_empty(name), arn: text_or_empty(arn) }
}

} // verus!

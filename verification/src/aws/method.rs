//! Secrets Manager as a resource Method: how a Set is read, written and walked to.

use vstd::prelude::*;
use vstd::string::*;

use crate::auth::error::SessionError;
use crate::auth::load::MethodInfo;
use crate::auth::method::{MethodError, MethodErrorView};
use crate::auth::wire::RawSecret;
use crate::aws::discovery::{Discovery, DiscoveryView};
use crate::aws::secret_write::{
    self, first_step, write_order, SecretWriteError, SecretWriteErrorView, WriteStep,
};
use crate::aws::secrets::{shape_of, SecretShape, SecretTurn, SecretsClient};
use crate::model::config::{Mapping, Method};
use crate::model::write::{edit_views, EnvEdit, WriteOutcome};

verus! {

/// The Secrets Manager Method.
#[derive(Debug, Clone, Copy)]
pub struct SecretsManagerMethod {}

/// How a failed write is masked: a call that failed is for the ladder to act on,
/// anything else is content that cannot be written.
pub open spec fn masked_write_error(e: SecretWriteErrorView) -> MethodErrorView {
    match e {
        SecretWriteErrorView::Session(s) => MethodErrorView::Session(s),
        other => MethodErrorView::Content { detail: other.detail() },
    }
}

impl SecretsManagerMethod {
    pub fn new() -> (result: SecretsManagerMethod)
        ensures
            result == (SecretsManagerMethod {  }),
    {
        SecretsManagerMethod {  }
    }

    /// Which Method this is.
    pub fn kind(&self) -> (result: Method)
        ensures
            result == Method::SecretsManager,
    {
        Method::SecretsManager
    }

    /// Whether a read may have a side effect the operator is told of.
    pub fn has_advisory(&self) -> (result: bool)
        ensures
            !result,
    {
        false
    }

    /// What a registry holds of this Method.
    pub fn info(&self) -> (result: MethodInfo)
        ensures
            result == (MethodInfo { has_advisory: false }),
    {
        MethodInfo { has_advisory: self.has_advisory() }
    }

    /// Begin to read the Set a Mapping names.
    pub fn fetch(&self, mapping: &Mapping) -> (result: SecretTurn)
        ensures
            result.wanted() == (mapping@.secret_id, mapping@.region),
    {
        SecretsClient::new().fetch(mapping)
    }

    /// Take the outcome of the read. A failed read is for the ladder to act on.
    pub fn fetched(&self, turn: SecretTurn, reply: Result<RawSecret, SessionError>) -> (result:
        Result<SecretShape, MethodError>)
        ensures
            match reply {
                Ok(raw) => match shape_of(raw@) {
                    Ok(shape) => result is Ok && result->Ok_0@ == shape,
                    Err(e) => result is Err && result->Err_0@ == MethodErrorView::Session(e),
                },
                Err(e) => result == Err::<SecretShape, MethodError>(MethodError::Session(e)),
            },
    {
        match turn.resume(reply) {
            Ok(shape) => Ok(shape),
            Err(e) => Err(MethodError::Session(e)),
        }
    }

    /// Begin to write edits into the Set a Mapping names.
    pub fn write(&self, mapping: &Mapping, edits: Vec<EnvEdit>) -> (result: WriteStep)
        ensures
            result@ == first_step(write_order(mapping@, edit_views(edits@))),
    {
        secret_write::write_secret(mapping.secret_id.clone(), mapping.region.clone(), edits)
    }

    /// Take the end of a write.
    pub fn written(&self, outcome: Result<WriteOutcome, SecretWriteError>) -> (result: Result<
        WriteOutcome,
        MethodError,
    >)
        ensures
            match outcome {
                Ok(o) => result == Ok::<WriteOutcome, MethodError>(o),
                Err(e) => result is Err && result->Err_0@ == masked_write_error(e@),
            },
    {
        match outcome {
            Ok(o) => Ok(o),
            Err(SecretWriteError::Session(s)) => Err(MethodError::Session(s)),
            Err(other) => Err(MethodError::Content { detail: other.detail() }),
        }
    }

    /// The walk to one secret: account, role, secret.
    pub fn discovery_steps(
        &self,
        environment: String,
        region: String,
        remembered: Option<Mapping>,
    ) -> (result: Discovery)
        ensures
            result@ == (DiscoveryView {
                environment: environment@,
                region: region@,
                remembered: match remembered {
                    Some(m) => Some(m@),
                    None => None,
                },
                cred: None,
                chosen: Seq::empty(),
                pending: Seq::empty(),
            }),
    {
        Discovery::new(environment, region, remembered)
    }
}

} // verus!

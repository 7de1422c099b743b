//! An authenticated data source: one broker, and reads that climb the ladder over it.

use vstd::prelude::*;

use crate::auth::broker::{mint_for, BrokerView, CredentialBroker, MintCall};
use crate::auth::climb::{
    self, after_call, after_mint, broker_after_mint, mint_reply, pass, CallRung, ClimbStep,
    ClimbStepView, MintRung, SignInRung,
};
use crate::auth::error::{SessionError, SessionErrorView, SignInError};
use crate::auth::ladder::call_reply;
use crate::auth::method::MethodErrorView;
use crate::auth::types::{Credential, SsoToken, Timestamp};
use crate::model::config::Mapping;

verus! {

/// A data source over one Identity Center session.
#[derive(Debug)]
pub struct AuthenticatedSource {
    broker: CredentialBroker,
}

impl View for AuthenticatedSource {
    type V = BrokerView;

    closed spec fn view(&self) -> BrokerView {
        self.broker@
    }
}

impl AuthenticatedSource {
    /// A source over a broker.
    pub fn new(broker: CredentialBroker) -> (result: AuthenticatedSource)
        ensures
            result@ == broker@,
    {
        AuthenticatedSource { broker }
    }

    /// The token of the session as it is now, after any fresh Sign-in.
    pub fn current_token(&self) -> (result: &SsoToken)
        ensures
            result@ == self@.token,
    {
        self.broker.token()
    }

    /// Begin to read the Set of a Mapping.
    pub fn fetch<S>(&self, mapping: &Mapping, now: Timestamp) -> (result: ClimbStep<
        S,
        SessionError,
    >)
        ensures
            result.view() == pass::<S>(self@, mapping@, false, now),
    {
        climb::begin(&self.broker, mapping.clone(), now)
    }

    /// What the mint a climb waits for is called with.
    pub fn mint_call<'a>(&'a self, rung: &'a MintRung) -> (result: MintCall<'a>)
        ensures
            result.is_for(self@, mint_for(rung.mapping())),
    {
        self.broker.mint_call(rung.mint())
    }

    /// Take the outcome of a mint.
    pub fn minted<S>(&mut self, rung: MintRung, reply: Result<Credential, SessionError>) -> (result:
        ClimbStep<S, SessionError>)
        ensures
            result.view() == after_mint::<S>(
                rung.mapping(),
                rung.signed_in_again(),
                rung.denied(),
                mint_reply(reply),
            ),
            final(self)@ == broker_after_mint(old(self)@, rung.mapping(), mint_reply(reply)),
    {
        rung.resume(&mut self.broker, reply)
    }

    /// Take the outcome of the read.
    pub fn read<S>(&self, rung: CallRung, reply: Result<S, SessionError>) -> (result: ClimbStep<
        S,
        SessionError,
    >)
        ensures
            result.view() == after_call::<S>(
                rung.mapping(),
                rung.signed_in_again(),
                rung.refreshed(),
                call_reply(reply),
            ),
    {
        rung.resume(&self.broker, reply)
    }

    /// Take the outcome of a fresh Sign-in.
    pub fn signed_in<S>(
        &mut self,
        rung: SignInRung,
        reply: Result<SsoToken, SignInError>,
        now: Timestamp,
    ) -> (result: ClimbStep<S, SessionError>)
        ensures
            match reply {
                Ok(token) => {
                    let fresh = BrokerView { token: token@, cache: Map::empty() };
                    &&& final(self)@ == fresh
                    &&& result.view() == pass::<S>(fresh, rung.mapping(), true, now)
                },
                Err(_) => {
                    &&& final(self)@ == old(self)@
                    &&& result.view() == ClimbStepView::<S>::Done(
                        Err(MethodErrorView::Session(SessionErrorView::ReauthRequired)),
                    )
                },
            },
    {
        rung.resume(&mut self.broker, reply, now)
    }
}

} // verus!

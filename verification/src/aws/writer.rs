//! Writing into one Environment's Set under a brokered Credential.

use vstd::prelude::*;

use crate::auth::broker::{
    mint_for, BrokerView, CredentialBroker, CredentialStep, MintCall, MintTurn, MintView,
};
use crate::auth::error::SessionError;
use crate::auth::types::{Credential, Timestamp};
use crate::aws::secret_write::{
    self, first_step, write_order, SecretWriteError, SecretWriteErrorView, WriteOrderView,
    WriteStep,
};
use crate::model::config::Mapping;
use crate::model::write::{edit_views, EnvEdit};

verus! {

/// Brokers a Credential for a Mapping, and then writes into its Set.
#[derive(Debug)]
pub struct SecretsManagerWriter {
    broker: CredentialBroker,
}

impl View for SecretsManagerWriter {
    type V = BrokerView;

    closed spec fn view(&self) -> BrokerView {
        self.broker@
    }
}

/// A brokered write that waits for its Credential to be minted.
pub struct WriterTurn {
    mint: MintTurn,
    mapping: Mapping,
    edits: Vec<EnvEdit>,
}

impl WriterTurn {
    /// The Credential to mint.
    pub closed spec fn minting(&self) -> MintView {
        self.mint@
    }

    /// What is to be written once it is.
    pub closed spec fn order(&self) -> WriteOrderView {
        write_order(self.mapping@, edit_views(self.edits@))
    }
}

/// Where a brokered write stands.
pub enum WriterStep {
    /// A Credential is to be minted.
    Mint(WriterTurn),
    /// The write runs, with this Credential.
    Write { credential: Credential, step: WriteStep },
    /// No Credential could be had.
    Failed(SecretWriteError),
}

fn write_with(credential: Credential, mapping: &Mapping, edits: Vec<EnvEdit>) -> (result:
    WriterStep)
    ensures
        result matches WriterStep::Write { credential: c, step } && c == credential && step@
            == first_step(write_order(mapping@, edit_views(edits@))),
{
    let step = secret_write::write_secret(
        mapping.secret_id.clone(),
        mapping.region.clone(),
        edits,
    );
    WriterStep::Write { credential, step }
}

impl SecretsManagerWriter {
    /// A writer over a broker.
    pub fn new(broker: CredentialBroker) -> (result: SecretsManagerWriter)
        ensures
            result@ == broker@,
    {
        SecretsManagerWriter { broker }
    }

    /// What the mint a write waits for is called with.
    pub fn mint_call<'a>(&'a self, turn: &'a WriterTurn) -> (result: MintCall<'a>)
        ensures
            result.is_for(self@, turn.minting()),
    {
        self.broker.mint_call(&turn.mint)
    }

    /// Begin to write edits into the Set of a Mapping: with the kept Credential, or
    /// once one is minted.
    pub fn write(&self, mapping: &Mapping, edits: Vec<EnvEdit>, now: Timestamp) -> (result:
        WriterStep)
        ensures
            ({
                let order = write_order(mapping@, edit_views(edits@));
                match self@.fresh(mapping@, now) {
                    Some(kept) => result matches WriterStep::Write { credential, step }
                        && credential@ == kept && step@ == first_step(order),
                    None => result matches WriterStep::Mint(turn) && turn.minting() == mint_for(
                        mapping@,
                    ) && turn.order() == order,
                }
            }),
    {
        match self.broker.credentials_for(mapping, now) {
            CredentialStep::Ready(credential) => write_with(credential, mapping, edits),
            CredentialStep::Mint(mint) => WriterStep::Mint(
                WriterTurn { mint, mapping: mapping.clone(), edits },
            ),
        }
    }

    /// Take the outcome of the mint, and write. Where it failed nothing is written.
    pub fn minted(&mut self, turn: WriterTurn, reply: Result<Credential, SessionError>) -> (result:
        WriterStep)
        ensures
            match reply {
                Ok(c) => {
                    &&& result matches WriterStep::Write { credential, step } && credential@ == c@
                        && step@ == first_step(turn.order())
                    &&& final(self)@ == (BrokerView {
                        token: old(self)@.token,
                        cache: old(self)@.cache.insert(turn.minting().key, c@),
                    })
                },
                Err(e) => {
                    &&& result matches WriterStep::Failed(f) && f@ == SecretWriteErrorView::Session(
                        e@,
                    )
                    &&& final(self)@ == old(self)@
                },
            },
    {
        match self.broker.minted(turn.mint, reply) {
            Ok(credential) => write_with(credential, &turn.mapping, turn.edits),
            Err(e) => WriterStep::Failed(SecretWriteError::Session(e)),
        }
    }
}

} // verus!

//! A session over Secrets Manager alone: it signs in when it is first needed, loads
//! Applications, and walks to new Environments.

use vstd::prelude::*;
use vstd::string::*;

use crate::auth::broker::{BrokerView, CredentialBroker};
use crate::auth::climb::token_of;
use crate::auth::error::{SessionError, SignInError};
use crate::auth::load::{
    self, first_step, set_views, LoadStep, LoadStepView, LoadedSets, MethodInfo, RecoverTurn,
    Registry,
};
use crate::auth::method::MethodError;
use crate::auth::types::{SsoToken, SsoTokenView};
use crate::aws::discovery::{
    after_choice, Discovery, DiscoveryView, WalkStep, WalkStepView,
};
use crate::aws::source::AuthenticatedSource;
use crate::model::config::{clone_mappings, mapping_views, Application, Mapping};
use crate::model::provider::{sign_in_needed, AppError, Step};

verus! {

/// A session. `S` is the shape of a Set.
#[derive(Debug)]
pub struct Session<S> {
    facade: Option<AuthenticatedSource>,
    discovery: Option<Discovery>,
    cached: Vec<(String, S)>,
}

/// A [`Session`] as a mathematical value.
#[verifier::ext_equal]
pub struct SessionView<S> {
    pub facade: Option<BrokerView>,
    pub discovery: Option<DiscoveryView>,
    pub cached: Seq<(Seq<char>, S)>,
}

impl<S> SessionView<S> {
    /// This session after a browser Sign-in, with its token where it succeeded.
    pub open spec fn signed_in(self, token: Option<SsoTokenView>) -> SessionView<S> {
        match (self.facade, token) {
            (None, Some(token)) => SessionView {
                facade: Some(BrokerView { token, cache: Map::empty() }),
                ..self
            },
            _ => self,
        }
    }

    /// This session after a load, with its Sets where it succeeded.
    pub open spec fn loaded(self, sets: Option<Seq<(Seq<char>, S)>>) -> SessionView<S> {
        match sets {
            Some(sets) => SessionView { cached: sets, ..self },
            None => self,
        }
    }

    /// This session after a walk came to rest, on a dead token or not.
    pub open spec fn rested(self, walk: DiscoveryView, dead: bool) -> SessionView<S> {
        if dead {
            SessionView { facade: None, discovery: None, ..self }
        } else {
            SessionView { discovery: Some(walk), ..self }
        }
    }
}

/// What a session without Methods to choose from loads by: every Mapping is read the
/// same way, and no read has a side effect.
pub open spec fn every_method() -> Registry {
    Registry {
        secrets_manager: Some(MethodInfo { has_advisory: false }),
        ssm_dotenv: Some(MethodInfo { has_advisory: false }),
    }
}

/// A new walk.
pub open spec fn fresh_walk(
    environment: Seq<char>,
    region: Seq<char>,
    remembered: Option<Mapping>,
) -> DiscoveryView {
    DiscoveryView {
        environment,
        region,
        remembered: match remembered {
            Some(m) => Some(m@),
            None => None,
        },
        cred: None,
        chosen: Seq::empty(),
        pending: Seq::empty(),
    }
}

/// The outcome of a read, as a load takes it.
pub fn load_reply<S>(r: Result<S, SessionError>) -> (result: Result<S, MethodError>)
    ensures
        result == (match r {
            Ok(s) => Ok::<S, MethodError>(s),
            Err(e) => Err(MethodError::Session(e)),
        }),
{
    match r {
        Ok(s) => Ok(s),
        Err(e) => Err(MethodError::Session(e)),
    }
}

impl<S> Session<S> {
    /// This session as a mathematical value.
    pub closed spec fn view(&self) -> SessionView<S> {
        SessionView {
            facade: match self.facade {
                Some(f) => Some(f@),
                None => None,
            },
            discovery: match self.discovery {
                Some(d) => Some(d@),
                None => None,
            },
            cached: set_views(self.cached@),
        }
    }

    /// A session that is not signed in.
    pub fn new() -> (result: Session<S>)
        ensures
            result.view() == (SessionView::<S> {
                facade: None,
                discovery: None,
                cached: Seq::empty(),
            }),
    {
        let result = Session { facade: None, discovery: None, cached: Vec::new() };
        assert(set_views(result.cached@) =~= Seq::empty());
        result
    }

    /// Whether a browser Sign-in has happened this session.
    pub fn is_signed_in(&self) -> (result: bool)
        ensures
            result == (self.view().facade is Some),
    {
        self.facade.is_some()
    }

    /// Take the outcome of a browser Sign-in. Once signed in there is nothing to do.
    pub fn sign_in(&mut self, reply: Result<SsoToken, SignInError>) -> (result: Result<
        (),
        SignInError,
    >)
        ensures
            final(self).view() == (if old(self).view().facade is None && reply is Ok {
                SessionView {
                    facade: Some(BrokerView { token: reply->Ok_0@, cache: Map::empty() }),
                    ..old(self).view()
                }
            } else {
                old(self).view()
            }),
            result is Ok <==> (old(self).view().facade is Some || reply is Ok),
            result is Err ==> result->Err_0 == reply->Err_0,
            final(self).view() == old(self).view().signed_in(token_of(reply)),
    {
        if self.facade.is_some() {
            return Ok(());
        }
        match reply {
            Ok(token) => {
                self.facade = Some(AuthenticatedSource::new(CredentialBroker::new(token)));
                Ok(())
            },
            Err(e) => Err(e),
        }
    }

    /// The source, once signed in, to read through.
    pub fn facade_mut(&mut self) -> (result: Option<&mut AuthenticatedSource>)
        ensures
            match result {
                Some(f) => {
                    &&& old(self).view().facade == Some(f@)
                    &&& final(self).view() == (SessionView::<S> {
                        facade: Some(final(f)@),
                        ..old(self).view()
                    })
                },
                None => old(self).view().facade is None && final(self).view() == old(self).view(),
            },
    {
        match &mut self.facade {
            Some(f) => Some(f),
            None => None,
        }
    }

    /// Begin a guided walk for one new Environment. `None` without a session.
    pub fn begin_discovery(
        &self,
        environment: String,
        region: String,
        remembered: Option<Mapping>,
    ) -> (result: Option<WalkStep>)
        ensures
            match result {
                Some(step) => self.view().facade is Some && step@ == (WalkStepView::Accounts {
                    walk: fresh_walk(environment@, region@, remembered),
                }),
                None => self.view().facade is None,
            },
    {
        if self.facade.is_none() {
            return None;
        }
        Some(Discovery::new(environment, region, remembered).start())
    }

    /// Answer the question the walk in progress rests on. `None` if no walk is in
    /// progress.
    pub fn advance_discovery(&mut self, choice: usize) -> (result: Option<WalkStep>)
        ensures
            match old(self).view().discovery {
                Some(walk) => result matches Some(step) && step@ == after_choice(walk, choice),
                None => result is None,
            },
            final(self).view() == (SessionView::<S> { discovery: None, ..old(self).view() }),
    {
        match self.discovery.take() {
            Some(walk) => Some(walk.advance(choice)),
            None => None,
        }
    }

    /// Take a walk that came to rest. A dead token drops the session and the walk, so
    /// that the next Sign-in opens a browser.
    pub fn walk_rested(&mut self, walk: Discovery, step: Step) -> (result: Step)
        ensures
            result == step,
            final(self).view() == (if step is Reauth {
                SessionView { facade: None, discovery: None, ..old(self).view() }
            } else {
                SessionView { discovery: Some(walk@), ..old(self).view() }
            }),
            final(self).view() == old(self).view().rested(walk@, step is Reauth),
    {
        self.discovery = Some(walk);
        self.reset_if_reauth(&step);
        step
    }

    /// On a dead token, drop the session and the walk. Any other step changes
    /// nothing.
    fn reset_if_reauth(&mut self, step: &Step)
        ensures
            final(self).view() == (if step is Reauth {
                SessionView { facade: None, discovery: None, ..old(self).view() }
            } else {
                old(self).view()
            }),
    {
        match step {
            Step::Reauth => {
                self.facade = None;
                self.discovery = None;
            },
            _ => {},
        }
    }

    /// What the listing a recovery waits for is called with: the token of the session as it
    /// is now, after any fresh Sign-in, and the account at hand. `None` without a session.
    pub fn roles_to_list<'a>(&'a self, turn: &'a RecoverTurn<S>) -> (result: Option<
        (&'a SsoToken, &'a str),
    >)
        ensures
            match self.view().facade {
                Some(b) => result matches Some((token, account_id)) && token@ == b.token
                    && account_id@ == turn.memory().at_hand().account_id,
                None => result is None,
            },
    {
        match &self.facade {
            Some(source) => Some((source.current_token(), turn.mapping().account_id.as_str())),
            None => None,
        }
    }

    /// Begin to load an Application. Without a session the load fails at once.
    pub fn load(&self, app: &Application) -> (result: LoadStep<S>)
        ensures
            result.view() == (if self.view().facade is None {
                LoadStepView::<S>::Done(Err(seq![sign_in_needed()]))
            } else {
                first_step::<S>(mapping_views(app.environments@), every_method())
            }),
    {
        if self.facade.is_none() {
            return LoadStep::Done(Err(AppError::needs_sign_in()));
        }
        let registry = Registry {
            secrets_manager: Some(MethodInfo { has_advisory: false }),
            ssm_dotenv: Some(MethodInfo { has_advisory: false }),
        };
        load::begin(clone_mappings(&app.environments), registry)
    }

    /// Take the end of a load: the Sets of a load that succeeded take the place of
    /// those kept, and a failed load leaves them.
    pub fn finish_load(&mut self, result: Result<LoadedSets<S>, AppError>) -> (corrected: Result<
        Vec<Mapping>,
        AppError,
    >)
        ensures
            match result {
                Ok(loaded) => {
                    &&& corrected == Ok::<Vec<Mapping>, AppError>(loaded.corrected)
                    &&& final(self).view() == (SessionView::<S> {
                        cached: loaded.view().sets,
                        ..old(self).view()
                    })
                },
                Err(e) => {
                    &&& corrected == Err::<Vec<Mapping>, AppError>(e)
                    &&& final(self).view() == old(self).view()
                },
            },
            final(self).view() == old(self).view().loaded(
                match result {
                    Ok(loaded) => Some(loaded.view().sets),
                    Err(_) => None,
                },
            ),
    {
        match result {
            Ok(loaded) => {
                self.cached = loaded.sets;
                Ok(loaded.corrected)
            },
            Err(e) => Err(e),
        }
    }

    /// The Sets of the Application last loaded, by Environment.
    pub fn cached(&self) -> (result: &Vec<(String, S)>)
        ensures
            set_views(result@) == self.view().cached,
    {
        &self.cached
    }
}

} // verus!

//! The AWS-family Provider: one signed-in session that loads, writes and walks
//! through whichever Method a Mapping names. It holds the broker, the walk in
//! progress, the Sets of the Application last loaded, and the notes to the operator.
//!
//! The calls themselves are made outside. This type decides which are made, and what
//! their outcomes change.

use vstd::prelude::*;
use vstd::string::*;

use crate::auth::aws_impl::text_option;
use crate::auth::broker::{BrokerView, CredentialBroker, MintTurn};
use crate::auth::climb::{self, pass, token_of, ClimbStep};
use crate::auth::error::{sign_in_failed, SessionError, SignInError};
use crate::auth::load::{
    self, fail_method, failure_of, first_step, no_method, set_views, LoadStep, LoadStepView,
    LoadedSets, RecoverTurn, Registry,
};
use crate::auth::method::MethodError;
use crate::auth::types::{Credential, SsoToken, SsoTokenView, Timestamp};
use crate::model::config::{
    clone_mappings, mapping_views, Application, Mapping, MappingView, Method,
};
use crate::model::provider::{
    sign_in_needed, AppError, Failure, FailureView, FetchFailReason, SignInFailed, Step, StepView,
};
use crate::model::write::WriteOutcome;
use crate::text::{lemma_views_push, views};

verus! {

/// The AWS-family Provider. `S` is the shape of a Set, `W` a walk at rest.
#[derive(Debug)]
pub struct AwsFamilyProvider<S, W> {
    registry: Registry,
    broker: Option<CredentialBroker>,
    discovery: Option<(Method, W)>,
    cached: Vec<(String, S)>,
    advisories: Vec<String>,
    seen_advisories: Vec<String>,
}

/// An [`AwsFamilyProvider`] as a mathematical value.
#[verifier::ext_equal]
pub struct ProviderView<S, W> {
    pub registry: Registry,
    pub broker: Option<BrokerView>,
    pub discovery: Option<(Method, W)>,
    pub cached: Seq<(Seq<char>, S)>,
    pub notes: Notes,
}

/// The notes to the operator: those waiting, and those ever queued.
#[verifier::ext_equal]
pub struct Notes {
    pub waiting: Seq<Seq<char>>,
    pub seen: Seq<Seq<char>>,
}

impl Notes {
    /// Queue a note, unless it was queued before.
    pub open spec fn push(self, note: Seq<char>) -> Notes {
        if self.seen.contains(note) {
            self
        } else {
            Notes { waiting: self.waiting.push(note), seen: self.seen.push(note) }
        }
    }

    /// Hand the waiting notes out.
    pub open spec fn take(self) -> Notes {
        Notes { waiting: Seq::empty(), seen: self.seen }
    }
}

impl<S, W> ProviderView<S, W> {
    /// This provider after a browser Sign-in, with its token where it succeeded.
    pub open spec fn signed_in(self, token: Option<SsoTokenView>) -> ProviderView<S, W> {
        match (self.broker, token) {
            (None, Some(token)) => ProviderView {
                broker: Some(BrokerView { token, cache: Map::empty() }),
                ..self
            },
            _ => self,
        }
    }

    /// This provider after a load, with its Sets where it succeeded.
    pub open spec fn loaded(self, sets: Option<Seq<(Seq<char>, S)>>) -> ProviderView<S, W> {
        match sets {
            Some(sets) => ProviderView { cached: sets, ..self },
            None => self,
        }
    }

    /// This provider after a walk came to rest, on a dead token or not.
    pub open spec fn rested(
        self,
        method: Method,
        walk: W,
        dead: bool,
        note: Option<Seq<char>>,
    ) -> ProviderView<S, W> {
        let notes = match note {
            Some(n) => self.notes.push(n),
            None => self.notes,
        };
        if dead {
            ProviderView { broker: None, discovery: None, notes, ..self }
        } else {
            ProviderView { discovery: Some((method, walk)), notes, ..self }
        }
    }
}

/// A step with the Method stamped on the Mapping it ends with.
pub open spec fn stamped(step: StepView, method: Method) -> StepView {
    match step {
        StepView::Done(m) => StepView::Done(MappingView { method, ..m }),
        other => other,
    }
}

/// Stamp the Method of a walk on the Mapping it ends with. Any other step is as it
/// is.
pub fn stamp_method(step: Step, method: Method) -> (result: Step)
    ensures
        result@ == stamped(step@, method),
        !(step is Done) ==> result == step,
{
    match step {
        Step::Done(m) => {
            let mut m = m;
            m.method = method;
            Step::Done(m)
        },
        other => other,
    }
}

/// The Environment at `i` is the first with its Method, and that Method has notes.
pub open spec fn is_probe(environments: Seq<MappingView>, registry: Registry, i: int) -> bool {
    &&& registry.info(environments[i].method) is Some
    &&& registry.info(environments[i].method)->0.has_advisory
    &&& forall|j: int| 0 <= j < i ==> (#[trigger] environments[j]).method != environments[i].method
}

/// The Environments among the first `n` to probe for a note, in order.
pub open spec fn probes(environments: Seq<MappingView>, registry: Registry, n: int) -> Seq<
    MappingView,
>
    decreases n,
{
    if n <= 0 {
        Seq::empty()
    } else if is_probe(environments, registry, n - 1) {
        probes(environments, registry, n - 1).push(environments[n - 1])
    } else {
        probes(environments, registry, n - 1)
    }
}

/// The failure of a write that could not sign in.
pub open spec fn write_sign_in_needed(m: MappingView) -> FailureView {
    FailureView {
        environment: m.environment,
        reason: FetchFailReason::NeedsSignIn,
        detail: "a fresh Sign-in is required"@,
    }
}

/// The outcome of a write as the port reports it: a conflict is an outcome, and an
/// error is masked.
pub fn write_outcome(m: &Mapping, r: Result<WriteOutcome, MethodError>) -> (result: Result<
    WriteOutcome,
    Failure,
>)
    ensures
        match r {
            Ok(outcome) => result == Ok::<WriteOutcome, Failure>(outcome),
            Err(e) => result is Err && result->Err_0@ == failure_of(m@, e@),
        },
{
    match r {
        Ok(outcome) => Ok(outcome),
        Err(e) => Err(fail_method(m, &e)),
    }
}

impl<S, W> AwsFamilyProvider<S, W> {
    /// This provider as a mathematical value.
    pub closed spec fn view(&self) -> ProviderView<S, W> {
        ProviderView {
            registry: self.registry,
            broker: match self.broker {
                Some(b) => Some(b@),
                None => None,
            },
            discovery: self.discovery,
            cached: set_views(self.cached@),
            notes: Notes {
                waiting: views(self.advisories@),
                seen: views(self.seen_advisories@),
            },
        }
    }

    /// A provider over these Methods. It is not signed in.
    pub fn new(registry: Registry) -> (result: Self)
        ensures
            result.view() == (ProviderView::<S, W> {
                registry,
                broker: None,
                discovery: None,
                cached: Seq::empty(),
                notes: Notes { waiting: Seq::empty(), seen: Seq::empty() },
            }),
    {
        let result = AwsFamilyProvider {
            registry,
            broker: None,
            discovery: None,
            cached: Vec::new(),
            advisories: Vec::new(),
            seen_advisories: Vec::new(),
        };
        assert(result.view() =~= (ProviderView::<S, W> {
            registry,
            broker: None,
            discovery: None,
            cached: Seq::empty(),
            notes: Notes { waiting: Seq::empty(), seen: Seq::empty() },
        }));
        result
    }

    /// Whether a browser Sign-in has happened this session.
    pub fn is_signed_in(&self) -> (result: bool)
        ensures
            result == (self.view().broker is Some),
    {
        self.broker.is_some()
    }

    /// Take the outcome of a browser Sign-in. Once signed in there is nothing to do.
    pub fn sign_in(&mut self, reply: Result<SsoToken, SignInError>) -> (result: Result<
        (),
        SignInFailed,
    >)
        ensures
            final(self).view() == (if old(self).view().broker is None && reply is Ok {
                ProviderView {
                    broker: Some(BrokerView { token: reply->Ok_0@, cache: Map::empty() }),
                    ..old(self).view()
                }
            } else {
                old(self).view()
            }),
            result is Ok <==> (old(self).view().broker is Some || reply is Ok),
            result is Err ==> result->Err_0.message@ == reply->Err_0@.message(),
            final(self).view() == old(self).view().signed_in(token_of(reply)),
    {
        if self.broker.is_some() {
            return Ok(());
        }
        match reply {
            Ok(token) => {
                self.broker = Some(CredentialBroker::new(token));
                Ok(())
            },
            Err(e) => Err(sign_in_failed(&e)),
        }
    }

    /// The broker, once signed in.
    pub fn broker(&self) -> (result: Option<&CredentialBroker>)
        ensures
            match result {
                Some(b) => self.view().broker == Some(b@),
                None => self.view().broker is None,
            },
    {
        match &self.broker {
            Some(b) => Some(b),
            None => None,
        }
    }

    /// The broker, once signed in, for a climb to work with.
    pub fn broker_mut(&mut self) -> (result: Option<&mut CredentialBroker>)
        ensures
            match result {
                Some(b) => {
                    &&& old(self).view().broker == Some(b@)
                    &&& final(self).view() == (ProviderView::<S, W> {
                        broker: Some(final(b)@),
                        ..old(self).view()
                    })
                },
                None => old(self).view().broker is None && final(self).view() == old(self).view(),
            },
    {
        match &mut self.broker {
            Some(b) => Some(b),
            None => None,
        }
    }

    /// Queue a note, unless it was queued before.
    pub fn push_advisory(&mut self, note: String)
        ensures
            final(self).view() == (ProviderView::<S, W> {
                notes: old(self).view().notes.push(note@),
                ..old(self).view()
            }),
    {
        let ghost seen = views(self.seen_advisories@);
        let mut i: usize = 0;
        while i < self.seen_advisories.len()
            invariant
                *self == *old(self),
                i <= self.seen_advisories@.len(),
                seen == views(self.seen_advisories@),
                forall|j: int| 0 <= j < i ==> #[trigger] seen[j] != note@,
            decreases self.seen_advisories@.len() - i,
        {
            assert(seen[i as int] == self.seen_advisories@[i as int]@);
            if self.seen_advisories[i] == note {
                assert(seen.contains(note@));
                assert(self.view() =~= (ProviderView::<S, W> {
                    notes: old(self).view().notes.push(note@),
                    ..old(self).view()
                }));
                return ;
            }
            i = i + 1;
        }
        assert(!seen.contains(note@));
        proof {
            lemma_views_push(self.seen_advisories@, note);
            lemma_views_push(self.advisories@, note);
        }
        self.seen_advisories.push(note.clone());
        self.advisories.push(note);
        assert(self.view() =~= (ProviderView::<S, W> {
            notes: old(self).view().notes.push(note@),
            ..old(self).view()
        }));
    }

    /// Hand out the waiting notes.
    pub fn take_advisories(&mut self) -> (result: Vec<String>)
        ensures
            views(result@) == old(self).view().notes.waiting,
            final(self).view() == (ProviderView::<S, W> {
                notes: old(self).view().notes.take(),
                ..old(self).view()
            }),
    {
        let mut out: Vec<String> = Vec::new();
        std::mem::swap(&mut out, &mut self.advisories);
        assert(views(self.advisories@) =~= Seq::empty());
        assert(self.view() =~= (ProviderView::<S, W> {
            notes: old(self).view().notes.take(),
            ..old(self).view()
        }));
        out
    }

    /// Which Environments to probe for a note before a load: the first of each Method
    /// that has notes. A Method without notes costs no probe.
    pub fn probe_targets(&self, app: &Application) -> (result: Vec<Mapping>)
        ensures
            mapping_views(result@) == (if self.view().broker is None {
                Seq::empty()
            } else {
                probes(
                    mapping_views(app.environments@),
                    self.view().registry,
                    app.environments@.len() as int,
                )
            }),
    {
        let mut out: Vec<Mapping> = Vec::new();
        assert(mapping_views(out@) =~= Seq::empty());
        if self.broker.is_none() {
            return out;
        }
        let ghost envs = mapping_views(app.environments@);
        let mut i: usize = 0;
        while i < app.environments.len()
            invariant
                i <= app.environments@.len(),
                envs == mapping_views(app.environments@),
                mapping_views(out@) == probes(envs, self.registry, i as int),
            decreases app.environments@.len() - i,
        {
            let method = app.environments[i].method;
            let mut first = true;
            let mut j: usize = 0;
            while j < i
                invariant
                    j <= i < app.environments@.len(),
                    envs == mapping_views(app.environments@),
                    method == envs[i as int].method,
                    first <==> forall|k: int| 0 <= k < j ==> (#[trigger] envs[k]).method != method,
                decreases i - j,
            {
                assert(envs[j as int] == app.environments@[j as int]@);
                if app.environments[j].method == method {
                    first = false;
                }
                j = j + 1;
            }
            let noted = match self.registry.method_for(method) {
                Some(info) => info.has_advisory,
                None => false,
            };
            assert(envs[i as int] == app.environments@[i as int]@);
            if first && noted {
                let m = app.environments[i].clone();
                let ghost before = out@;
                out.push(m);
                assert(mapping_views(out@) =~= mapping_views(before).push(m@));
                assert(is_probe(envs, self.registry, i as int));
            } else {
                assert(!is_probe(envs, self.registry, i as int));
            }
            i = i + 1;
        }
        out
    }

    /// Take the outcome of a mint for a probe: the Credential to probe with. Where the mint
    /// failed there is nothing to probe with; the load itself meets that failure.
    pub fn probe_minted(&mut self, turn: MintTurn, reply: Result<Credential, SessionError>) -> (
    result: Option<Credential>)
        ensures
            match (old(self).view().broker, reply) {
                (Some(b), Ok(c)) => {
                    &&& result is Some
                    &&& result->0@ == c@
                    &&& final(self).view() == (ProviderView::<S, W> {
                        broker: Some(
                            BrokerView { token: b.token, cache: b.cache.insert(turn@.key, c@) },
                        ),
                        ..old(self).view()
                    })
                },
                _ => result is None && final(self).view() == old(self).view(),
            },
    {
        match &mut self.broker {
            None => None,
            Some(broker) => match broker.minted(turn, reply) {
                Ok(credential) => Some(credential),
                Err(_) => None,
            },
        }
    }

    /// What the listing a recovery waits for is called with: the token of the session as it
    /// is now, after any fresh Sign-in, and the account at hand. `None` without a session.
    pub fn roles_to_list<'a>(&'a self, turn: &'a RecoverTurn<S>) -> (result: Option<
        (&'a SsoToken, &'a str),
    >)
        ensures
            match self.view().broker {
                Some(b) => result matches Some((token, account_id)) && token@ == b.token
                    && account_id@ == turn.memory().at_hand().account_id,
                None => result is None,
            },
    {
        match &self.broker {
            Some(broker) => Some((broker.token(), turn.mapping().account_id.as_str())),
            None => None,
        }
    }

    /// Begin to load an Application. Without a session the load fails at once.
    pub fn load(&self, app: &Application) -> (result: LoadStep<S>)
        ensures
            result.view() == (if self.view().broker is None {
                LoadStepView::<S>::Done(Err(seq![sign_in_needed()]))
            } else {
                first_step::<S>(mapping_views(app.environments@), self.view().registry)
            }),
    {
        if self.broker.is_none() {
            return LoadStep::Done(Err(AppError::needs_sign_in()));
        }
        load::begin(clone_mappings(&app.environments), self.registry)
    }

    /// Begin to read one Environment's Set, through the ladder. `None` without a
    /// session.
    pub fn fetch_with_ladder(&self, m: &Mapping, now: Timestamp) -> (result: Option<
        ClimbStep<S, MethodError>,
    >)
        ensures
            match self.view().broker {
                Some(b) => result matches Some(step) && step.view() == pass::<S>(
                    b,
                    m@,
                    false,
                    now,
                ),
                None => result is None,
            },
    {
        match &self.broker {
            Some(b) => Some(climb::begin(b, m.clone(), now)),
            None => None,
        }
    }

    /// Begin to write into one Environment's Set, through the ladder. Without a
    /// session it is refused, and so is a Method that is not registered.
    pub fn write(&self, m: &Mapping, now: Timestamp) -> (result: Result<
        ClimbStep<WriteOutcome, MethodError>,
        Failure,
    >)
        ensures
            match self.view().broker {
                None => result is Err && result->Err_0@ == write_sign_in_needed(m@),
                Some(b) => if self.view().registry.info(m.method) is None {
                    result is Err && result->Err_0@ == no_method(m@)
                } else {
                    result is Ok && result->Ok_0.view() == pass::<WriteOutcome>(b, m@, false, now)
                },
            },
    {
        match &self.broker {
            None => Err(
                Failure {
                    environment: m.environment.clone(),
                    reason: FetchFailReason::NeedsSignIn,
                    detail: "a fresh Sign-in is required".to_owned(),
                },
            ),
            Some(b) => if self.registry.method_for(m.method).is_some() {
                Ok(climb::begin(b, m.clone(), now))
            } else {
                Err(
                    Failure {
                        environment: m.environment.clone(),
                        reason: FetchFailReason::Other,
                        detail: "no method configured for this Environment".to_owned(),
                    },
                )
            },
        }
    }

    /// Take the end of a load: the Sets of a load that succeeded take the place of
    /// those kept, and a failed load leaves them.
    pub fn finish_load(&mut self, result: Result<LoadedSets<S>, AppError>) -> (corrected: Result<
        Vec<Mapping>,
        AppError,
    >)
        ensures
            match result {
                Ok(loaded) => {
                    &&& corrected == Ok::<Vec<Mapping>, AppError>(loaded.corrected)
                    &&& final(self).view() == (ProviderView::<S, W> {
                        cached: loaded.view().sets,
                        ..old(self).view()
                    })
                },
                Err(e) => {
                    &&& corrected == Err::<Vec<Mapping>, AppError>(e)
                    &&& final(self).view() == old(self).view()
                },
            },
            final(self).view() == old(self).view().loaded(
                match result {
                    Ok(loaded) => Some(loaded.view().sets),
                    Err(_) => None,
                },
            ),
    {
        match result {
            Ok(loaded) => {
                self.cached = loaded.sets;
                assert(self.view() =~= (ProviderView::<S, W> {
                    cached: loaded.view().sets,
                    ..old(self).view()
                }));
                Ok(loaded.corrected)
            },
            Err(e) => Err(e),
        }
    }

    /// The Sets of the Application last loaded, by Environment.
    pub fn cached(&self) -> (result: &Vec<(String, S)>)
        ensures
            set_views(result@) == self.view().cached,
    {
        &self.cached
    }

    /// The step that refuses a walk whose Method is not registered.
    pub fn refuse_discovery(&self, method: Method) -> (result: Option<Step>)
        ensures
            match result {
                Some(step) => self.view().registry.info(method) is None && step@
                    == StepView::Failed(FetchFailReason::Other),
                None => self.view().registry.info(method) is Some,
            },
    {
        if self.registry.method_for(method).is_some() {
            None
        } else {
            Some(Step::Failed(FetchFailReason::Other))
        }
    }

    /// Take the walk in progress, to go on with it.
    pub fn take_walk(&mut self) -> (result: Option<(Method, W)>)
        ensures
            result == old(self).view().discovery,
            final(self).view() == (ProviderView::<S, W> { discovery: None, ..old(self).view() }),
    {
        let out = self.discovery.take();
        assert(self.view() =~= (ProviderView::<S, W> { discovery: None, ..old(self).view() }));
        out
    }

    /// Take a walk that came to rest: its Method is stamped on the Mapping it ends
    /// with, and its note is queued. A dead token drops the session and the walk, so
    /// that the next Sign-in opens a browser.
    pub fn walk_rested(
        &mut self,
        method: Method,
        walk: W,
        step: Step,
        note: Option<String>,
    ) -> (result: Step)
        ensures
            result@ == stamped(step@, method),
            final(self).view() == ({
                let notes = match note {
                    Some(n) => old(self).view().notes.push(n@),
                    None => old(self).view().notes,
                };
                if step is Reauth {
                    ProviderView { broker: None, discovery: None, notes, ..old(self).view() }
                } else {
                    ProviderView { discovery: Some((method, walk)), notes, ..old(self).view() }
                }
            }),
            final(self).view() == old(self).view().rested(
                method,
                walk,
                step is Reauth,
                text_option(note),
            ),
    {
        self.discovery = Some((method, walk));
        if let Some(n) = note {
            self.push_advisory(n);
        }
        self.reset_if_reauth(&step);
        stamp_method(step, method)
    }

    /// On a dead token, drop the session and the walk. Any other step changes
    /// nothing.
    pub fn reset_if_reauth(&mut self, step: &Step)
        ensures
            final(self).view() == (if step is Reauth {
                ProviderView { broker: None, discovery: None, ..old(self).view() }
            } else {
                old(self).view()
            }),
    {
        match step {
            Step::Reauth => {
                self.broker = None;
                self.discovery = None;
            },
            _ => {},
        }
    }
}

// ---------------------------------------------------------------------------
// Laws
// ---------------------------------------------------------------------------

/// What happens to the notes of a session.
pub enum NoteEvent {
    Push(Seq<char>),
    Take,
}

/// The notes after these events, and all that were handed out on the way.
pub open spec fn notes_after(events: Seq<NoteEvent>) -> (Notes, Seq<Seq<char>>)
    decreases events.len(),
{
    if events.len() == 0 {
        (Notes { waiting: Seq::empty(), seen: Seq::empty() }, Seq::empty())
    } else {
        let (notes, shown) = notes_after(events.drop_last());
        match events.last() {
            NoteEvent::Push(note) => (notes.push(note), shown),
            NoteEvent::Take => (notes.take(), shown + notes.waiting),
        }
    }
}

proof fn lemma_notes(events: Seq<NoteEvent>)
    ensures
        ({
            let (notes, shown) = notes_after(events);
            &&& shown + notes.waiting == notes.seen
            &&& notes.seen.no_duplicates()
        }),
    decreases events.len(),
{
    if events.len() > 0 {
        lemma_notes(events.drop_last());
        let (before, shown_before) = notes_after(events.drop_last());
        let (notes, shown) = notes_after(events);
        match events.last() {
            NoteEvent::Push(note) => {
                if !before.seen.contains(note) {
                    assert(shown + notes.waiting =~= (shown_before + before.waiting).push(note));
                }
            },
            NoteEvent::Take => {
                assert(shown + notes.waiting =~= shown_before + before.waiting);
            },
        }
    } else {
        assert(notes_after(events).1 + notes_after(events).0.waiting =~= Seq::empty());
    }
}

/// A note is shown to the operator at most once in a session, however often it comes
/// up, and every note that comes up is shown or waiting.
pub proof fn a_note_is_shown_at_most_once(events: Seq<NoteEvent>)
    ensures
        notes_after(events).1.no_duplicates(),
        forall|i: int|
            0 <= i < events.len() && events[i] is Push ==> {
                let (notes, shown) = notes_after(events);
                shown.contains((#[trigger] events[i])->Push_0) || notes.waiting.contains(
                    events[i]->Push_0,
                )
            },
{
    lemma_notes(events);
    let (notes, shown) = notes_after(events);
    assert forall|i: int, j: int| 0 <= i < shown.len() && 0 <= j < shown.len() && i != j implies shown[i]
        != shown[j] by {
        assert((shown + notes.waiting)[i] == shown[i]);
        assert((shown + notes.waiting)[j] == shown[j]);
    }
    assert forall|i: int| 0 <= i < events.len() && events[i] is Push implies shown.contains(
        (#[trigger] events[i])->Push_0,
    ) || notes.waiting.contains(events[i]->Push_0) by {
        lemma_pushed_is_seen(events, i);
        let note = events[i]->Push_0;
        let k = choose|k: int| 0 <= k < notes.seen.len() && notes.seen[k] == note;
        if k < shown.len() {
            assert(shown[k] == (shown + notes.waiting)[k]);
        } else {
            assert(notes.waiting[k - shown.len()] == (shown + notes.waiting)[k]);
        }
    }
}

proof fn lemma_pushed_is_seen(events: Seq<NoteEvent>, i: int)
    requires
        0 <= i < events.len(),
        events[i] is Push,
    ensures
        notes_after(events).0.seen.contains(events[i]->Push_0),
    decreases events.len(),
{
    let (before, _) = notes_after(events.drop_last());
    let (notes, _) = notes_after(events);
    let note = events[i]->Push_0;
    if i == events.len() - 1 {
        if !before.seen.contains(note) {
            assert(notes.seen[notes.seen.len() - 1] == note);
        }
    } else {
        assert(events.drop_last()[i] == events[i]);
        lemma_pushed_is_seen(events.drop_last(), i);
        let k = choose|k: int| 0 <= k < before.seen.len() && before.seen[k] == note;
        assert(notes.seen[k] == note);
    }
}

/// A Method is probed at most once, and only where it is registered and has notes.
pub proof fn a_method_is_probed_at_most_once(
    environments: Seq<MappingView>,
    registry: Registry,
    n: int,
)
    requires
        0 <= n <= environments.len(),
    ensures
        ({
            let p = probes(environments, registry, n);
            &&& forall|i: int, j: int|
                0 <= i < j < p.len() ==> (#[trigger] p[i]).method != (#[trigger] p[j]).method
            &&& forall|i: int|
                0 <= i < p.len() ==> registry.info((#[trigger] p[i]).method) is Some
                    && registry.info(p[i].method)->0.has_advisory
        }),
    decreases n,
{
    lemma_probes(environments, registry, n);
}

proof fn lemma_probes(environments: Seq<MappingView>, registry: Registry, n: int)
    requires
        0 <= n <= environments.len(),
    ensures
        ({
            let p = probes(environments, registry, n);
            &&& forall|i: int, j: int|
                0 <= i < j < p.len() ==> (#[trigger] p[i]).method != (#[trigger] p[j]).method
            &&& forall|i: int|
                0 <= i < p.len() ==> registry.info((#[trigger] p[i]).method) is Some
                    && registry.info(p[i].method)->0.has_advisory
            &&& forall|i: int|
                0 <= i < p.len() ==> exists|k: int|
                    0 <= k < n && #[trigger] environments[k] == #[trigger] p[i]
        }),
    decreases n,
{
    if n > 0 {
        lemma_probes(environments, registry, n - 1);
        let before = probes(environments, registry, n - 1);
        let p = probes(environments, registry, n);
        assert forall|i: int| 0 <= i < p.len() implies exists|k: int|
            0 <= k < n && #[trigger] environments[k] == #[trigger] p[i] by {
            if i < before.len() {
                assert(p[i] == before[i]);
                let k = choose|k: int|
                    0 <= k < n - 1 && #[trigger] environments[k] == #[trigger] before[i];
                assert(environments[k] == p[i]);
            } else {
                assert(environments[n - 1] == p[i]);
            }
        }
        if is_probe(environments, registry, n - 1) {
            assert forall|i: int, j: int| 0 <= i < j < p.len() implies (#[trigger] p[i]).method != (
            #[trigger] p[j]).method by {
                assert(p[i] == before[i]);
                let k = choose|k: int|
                    0 <= k < n - 1 && #[trigger] environments[k] == #[trigger] before[i];
                assert(environments[k] == before[i]);
                if j < before.len() {
                    assert(p[j] == before[j]);
                }
            }
        }
    }
}

} // verus!

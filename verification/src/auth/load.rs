//! Loading one Application: every Environment is fetched, and one failure fails the
//! whole load, so there is never a partial matrix.
//!
//! An Environment whose role is no longer granted gets one chance. Where the account
//! grants exactly one role, and another than the stored one, the fetch is tried once
//! more with that role, and the correction is reported. Among several roles none is
//! ever picked.
//!
//! A load is a sequence of turns. [`begin`] gives the first, and each turn says what
//! it waits for and takes the reply.

use vstd::prelude::*;
use vstd::string::*;

use crate::auth::error::{SessionError, SessionErrorView};
use crate::auth::method::{MethodError, MethodErrorView};
use crate::auth::wire::{choices_of_roles, role_choices, RoleSummary};
use crate::model::config::{mapping_views, Mapping, MappingView, Method};
use crate::model::provider::{
    failure_views, AppError, Failure, FailureView, FetchFailReason,
};
use crate::model::select::{plan_selection, SelectionPlan};

verus! {

/// What is known of a registered Method.
#[derive(Debug, Clone, Copy, PartialEq, Eq, Structural)]
pub struct MethodInfo {
    /// Whether a read by this Method may have a side effect the operator is told of.
    pub has_advisory: bool,
}

/// Which Methods are registered.
#[derive(Debug, Clone, Copy, PartialEq, Eq, Structural)]
pub struct Registry {
    pub secrets_manager: Option<MethodInfo>,
    pub ssm_dotenv: Option<MethodInfo>,
}

impl Registry {
    /// What is known of a Method, where it is registered.
    pub open spec fn info(self, method: Method) -> Option<MethodInfo> {
        match method {
            Method::SecretsManager => self.secrets_manager,
            Method::SsmDotenv => self.ssm_dotenv,
        }
    }

    /// What is known of a Method, where it is registered.
    pub fn method_for(&self, method: Method) -> (result: Option<MethodInfo>)
        ensures
            result == self.info(method),
    {
        match method {
            Method::SecretsManager => self.secrets_manager,
            Method::SsmDotenv => self.ssm_dotenv,
        }
    }
}

// ---------------------------------------------------------------------------
// Role recovery
// ---------------------------------------------------------------------------

/// What an account grants.
#[derive(Debug, PartialEq, Eq)]
pub enum RoleResolution {
    /// Exactly one role.
    Single(String),
    /// Several roles: this many.
    Ambiguous(usize),
    /// No role.
    NoRole,
    /// The roles could not be listed.
    ListFailed,
}

/// A [`RoleResolution`] as a mathematical value.
#[verifier::ext_equal]
pub enum RoleResolutionView {
    Single(Seq<char>),
    Ambiguous(nat),
    NoRole,
    ListFailed,
}

impl View for RoleResolution {
    type V = RoleResolutionView;

    open spec fn view(&self) -> RoleResolutionView {
        match self {
            RoleResolution::Single(name) => RoleResolutionView::Single(name@),
            RoleResolution::Ambiguous(n) => RoleResolutionView::Ambiguous(*n as nat),
            RoleResolution::NoRole => RoleResolutionView::NoRole,
            RoleResolution::ListFailed => RoleResolutionView::ListFailed,
        }
    }
}

/// The names of a list of roles.
pub open spec fn role_names(roles: Seq<RoleSummary>) -> Seq<Seq<char>> {
    roles.map_values(|r: RoleSummary| r.name@)
}

/// What an account with these roles grants.
pub open spec fn resolution_of(names: Option<Seq<Seq<char>>>) -> RoleResolutionView {
    match names {
        None => RoleResolutionView::ListFailed,
        Some(names) => if names.len() == 0 {
            RoleResolutionView::NoRole
        } else if names.len() == 1 {
            RoleResolutionView::Single(names[0])
        } else {
            RoleResolutionView::Ambiguous(names.len())
        },
    }
}

/// The names in the reply to a listing.
pub open spec fn listed(reply: Result<Vec<RoleSummary>, SessionError>) -> Option<Seq<Seq<char>>> {
    match reply {
        Ok(roles) => Some(role_names(roles@)),
        Err(_) => None,
    }
}

/// Re-resolve which role an account grants. The stored role is the one that was just
/// denied, so it does not bias the choice.
pub fn recover_role(reply: &Result<Vec<RoleSummary>, SessionError>) -> (result: RoleResolution)
    ensures
        result@ == resolution_of(listed(*reply)),
{
    match reply {
        Err(_) => RoleResolution::ListFailed,
        Ok(roles) => {
            let choices = choices_of_roles(roles);
            match plan_selection(&choices, None) {
                SelectionPlan::Empty => RoleResolution::NoRole,
                SelectionPlan::Auto(i) => RoleResolution::Single(roles[i].name.clone()),
                SelectionPlan::Ask { default: _ } => RoleResolution::Ambiguous(roles.len()),
            }
        },
    }
}

/// What the log says when a recovery is declined.
pub fn declined_note(resolution: &RoleResolution) -> (result: &'static str)
    ensures
        result@ == match resolution {
            RoleResolution::Ambiguous(_) =>
                "multiple entitled roles; not auto-selecting — surfacing access denied"@,
            RoleResolution::NoRole => "no entitled roles on this account"@,
            RoleResolution::ListFailed =>
                "could not list roles for recovery — keeping original denial"@,
            RoleResolution::Single(_) =>
                "stored role is the only entitled one; denial is not a stale-role problem"@,
        },
{
    match resolution {
        RoleResolution::Ambiguous(_) =>
            "multiple entitled roles; not auto-selecting — surfacing access denied",
        RoleResolution::NoRole => "no entitled roles on this account",
        RoleResolution::ListFailed =>
            "could not list roles for recovery — keeping original denial",
        RoleResolution::Single(_) =>
            "stored role is the only entitled one; denial is not a stale-role problem",
    }
}

/// A Mapping's failure with `e`.
pub open spec fn failure_of(m: MappingView, e: MethodErrorView) -> FailureView {
    FailureView { environment: m.environment, reason: e.reason(), detail: e.detail() }
}

/// A Mapping's failure with `e`.
pub fn fail_method(m: &Mapping, e: &MethodError) -> (result: Failure)
    ensures
        result@ == failure_of(m@, e@),
{
    Failure { environment: m.environment.clone(), reason: e.reason(), detail: e.detail() }
}

// ---------------------------------------------------------------------------
// The turns of a load
// ---------------------------------------------------------------------------

/// The Sets of an Application, by Environment, and the Mappings whose role was
/// corrected.
#[derive(Debug)]
pub struct LoadedSets<S> {
    pub sets: Vec<(String, S)>,
    pub corrected: Vec<Mapping>,
}

/// [`LoadedSets`] as a mathematical value.
#[verifier::ext_equal]
pub struct LoadedSetsView<S> {
    pub sets: Seq<(Seq<char>, S)>,
    pub corrected: Seq<MappingView>,
}

/// Sets by Environment as a mathematical value.
pub open spec fn set_views<S>(sets: Seq<(String, S)>) -> Seq<(Seq<char>, S)> {
    sets.map_values(|p: (String, S)| (p.0@, p.1))
}

impl<S> LoadedSets<S> {
    /// This value as a mathematical one.
    pub open spec fn view(&self) -> LoadedSetsView<S> {
        LoadedSetsView {
            sets: set_views(self.sets@),
            corrected: mapping_views(self.corrected@),
        }
    }
}

/// What a load has come to: the Environments before `next` are settled.
#[derive(Debug)]
pub struct LoadMemory<S> {
    environments: Vec<Mapping>,
    registry: Registry,
    next: usize,
    sets: Vec<(String, S)>,
    failures: Vec<Failure>,
    corrected: Vec<Mapping>,
}

/// A [`LoadMemory`] as a mathematical value.
#[verifier::ext_equal]
pub struct LoadMemoryView<S> {
    pub environments: Seq<MappingView>,
    pub registry: Registry,
    pub next: int,
    pub sets: Seq<(Seq<char>, S)>,
    pub failures: Seq<FailureView>,
    pub corrected: Seq<MappingView>,
}

impl<S> LoadMemory<S> {
    /// This memory as a mathematical value.
    pub closed spec fn view(&self) -> LoadMemoryView<S> {
        LoadMemoryView {
            environments: mapping_views(self.environments@),
            registry: self.registry,
            next: self.next as int,
            sets: set_views(self.sets@),
            failures: failure_views(self.failures@),
            corrected: mapping_views(self.corrected@),
        }
    }
}

impl<S> LoadMemoryView<S> {
    /// The Environment at hand.
    pub open spec fn at_hand(self) -> MappingView {
        self.environments[self.next]
    }

    /// Settle the Environment at hand with its Set.
    pub open spec fn with_set(self, set: S) -> LoadMemoryView<S> {
        LoadMemoryView {
            next: self.next + 1,
            sets: self.sets.push((self.at_hand().environment, set)),
            ..self
        }
    }

    /// Settle the Environment at hand with its Set, read with a corrected role.
    pub open spec fn with_corrected(self, set: S, patched: MappingView) -> LoadMemoryView<S> {
        LoadMemoryView {
            next: self.next + 1,
            sets: self.sets.push((self.at_hand().environment, set)),
            corrected: self.corrected.push(patched),
            ..self
        }
    }

    /// Settle the Environment at hand with a failure.
    pub open spec fn with_failure(self, failure: FailureView) -> LoadMemoryView<S> {
        LoadMemoryView { next: self.next + 1, failures: self.failures.push(failure), ..self }
    }
}

/// A load that waits for the Environment at hand to be fetched, through the ladder.
#[derive(Debug)]
pub struct FetchTurn<S> {
    memory: LoadMemory<S>,
}

/// A load that waits for the roles of the account at hand to be listed.
#[derive(Debug)]
pub struct RecoverTurn<S> {
    memory: LoadMemory<S>,
    context: String,
}

/// A load that waits for the Environment at hand to be fetched with a corrected role.
#[derive(Debug)]
pub struct RetryTurn<S> {
    memory: LoadMemory<S>,
    patched: Mapping,
}

/// Where a load stands.
#[derive(Debug)]
pub enum LoadStep<S> {
    Fetch(FetchTurn<S>),
    Recover(RecoverTurn<S>),
    Retry(RetryTurn<S>),
    Done(Result<LoadedSets<S>, AppError>),
}

/// A [`LoadStep`] as a mathematical value.
#[verifier::ext_equal]
pub enum LoadStepView<S> {
    Fetch { memory: LoadMemoryView<S> },
    Recover { memory: LoadMemoryView<S>, context: Seq<char> },
    Retry { memory: LoadMemoryView<S>, patched: MappingView },
    Done(Result<LoadedSetsView<S>, Seq<FailureView>>),
}

impl<S> FetchTurn<S> {
    pub closed spec fn memory(&self) -> LoadMemoryView<S> {
        self.memory.view()
    }

    #[verifier::type_invariant]
    spec fn inv(&self) -> bool {
        self.memory.next < self.memory.environments@.len()
    }
}

impl<S> RecoverTurn<S> {
    pub closed spec fn memory(&self) -> LoadMemoryView<S> {
        self.memory.view()
    }

    pub closed spec fn context(&self) -> Seq<char> {
        self.context@
    }

    #[verifier::type_invariant]
    spec fn inv(&self) -> bool {
        self.memory.next < self.memory.environments@.len()
    }
}

impl<S> RetryTurn<S> {
    pub closed spec fn memory(&self) -> LoadMemoryView<S> {
        self.memory.view()
    }

    pub closed spec fn patched(&self) -> MappingView {
        self.patched@
    }

    #[verifier::type_invariant]
    spec fn inv(&self) -> bool {
        self.memory.next < self.memory.environments@.len()
    }
}

impl<S> LoadStep<S> {
    /// This step as a mathematical value.
    pub open spec fn view(&self) -> LoadStepView<S> {
        match self {
            LoadStep::Fetch(t) => LoadStepView::Fetch { memory: t.memory() },
            LoadStep::Recover(t) => LoadStepView::Recover {
                memory: t.memory(),
                context: t.context(),
            },
            LoadStep::Retry(t) => LoadStepView::Retry {
                memory: t.memory(),
                patched: t.patched(),
            },
            LoadStep::Done(r) => LoadStepView::Done(
                match r {
                    Ok(loaded) => Ok(loaded.view()),
                    Err(e) => Err(failure_views(e.failures@)),
                },
            ),
        }
    }
}

/// The failure of an Environment whose Method is not registered.
pub open spec fn no_method(m: MappingView) -> FailureView {
    FailureView {
        environment: m.environment,
        reason: FetchFailReason::Other,
        detail: "no method configured for this Environment"@,
    }
}

/// How a load ends: with every Set, or with every failure.
pub open spec fn finish<S>(memory: LoadMemoryView<S>) -> LoadStepView<S> {
    if memory.failures.len() > 0 {
        LoadStepView::Done(Err(memory.failures))
    } else {
        LoadStepView::Done(Ok(LoadedSetsView { sets: memory.sets, corrected: memory.corrected }))
    }
}

/// The step from here: fetch the next Environment whose Method is registered, having
/// failed those before it, or end.
pub open spec fn next_step<S>(memory: LoadMemoryView<S>) -> LoadStepView<S>
    decreases memory.environments.len() - memory.next,
{
    if memory.next >= memory.environments.len() {
        finish(memory)
    } else if memory.registry.info(memory.at_hand().method) is None {
        next_step(memory.with_failure(no_method(memory.at_hand())))
    } else {
        LoadStepView::Fetch { memory }
    }
}

/// The step a load begins with.
pub open spec fn first_step<S>(
    environments: Seq<MappingView>,
    registry: Registry,
) -> LoadStepView<S> {
    next_step(
        LoadMemoryView {
            environments,
            registry,
            next: 0,
            sets: Seq::empty(),
            failures: Seq::empty(),
            corrected: Seq::empty(),
        },
    )
}

/// The step after the fetch of the Environment at hand: a role that is not granted is
/// looked into, anything else settles it.
pub open spec fn after_fetch<S>(
    memory: LoadMemoryView<S>,
    reply: Result<S, MethodErrorView>,
) -> LoadStepView<S> {
    match reply {
        Ok(set) => next_step(memory.with_set(set)),
        Err(MethodErrorView::Session(SessionErrorView::RoleNotEntitled { context })) => {
            LoadStepView::Recover { memory, context }
        },
        Err(e) => next_step(memory.with_failure(failure_of(memory.at_hand(), e))),
    }
}

/// A Mapping with another role.
pub open spec fn with_role(m: MappingView, role: Seq<char>) -> MappingView {
    MappingView { permission_set: role, ..m }
}

/// The denial kept when a recovery is declined.
pub open spec fn kept_denial(m: MappingView, context: Seq<char>) -> FailureView {
    FailureView {
        environment: m.environment,
        reason: FetchFailReason::AccessDenied,
        detail: context,
    }
}

/// The step after the roles of the account at hand were listed: the one role that is
/// granted, where it is another than the stored one, is tried. Anything else keeps
/// the denial.
pub open spec fn after_roles<S>(
    memory: LoadMemoryView<S>,
    context: Seq<char>,
    names: Option<Seq<Seq<char>>>,
) -> LoadStepView<S> {
    let m = memory.at_hand();
    match resolution_of(names) {
        RoleResolutionView::Single(role) => if role != m.permission_set {
            LoadStepView::Retry { memory, patched: with_role(m, role) }
        } else {
            next_step(memory.with_failure(kept_denial(m, context)))
        },
        _ => next_step(memory.with_failure(kept_denial(m, context))),
    }
}

/// The step after the fetch with the corrected role. It settles the Environment,
/// whatever came of it.
pub open spec fn after_retry<S>(
    memory: LoadMemoryView<S>,
    patched: MappingView,
    reply: Result<S, MethodErrorView>,
) -> LoadStepView<S> {
    match reply {
        Ok(set) => next_step(memory.with_corrected(set, patched)),
        Err(e) => next_step(memory.with_failure(failure_of(memory.at_hand(), e))),
    }
}

/// The reply to a fetch as a mathematical value.
pub open spec fn fetch_reply<S>(r: Result<S, MethodError>) -> Result<S, MethodErrorView> {
    match r {
        Ok(s) => Ok(s),
        Err(e) => Err(e@),
    }
}

fn push_failure(failures: &mut Vec<Failure>, failure: Failure)
    ensures
        failure_views(final(failures)@) == failure_views(old(failures)@).push(failure@),
{
    let ghost before = failures@;
    failures.push(failure);
    assert(failure_views(failures@) =~= failure_views(before).push(failure@));
}

impl<S> LoadMemory<S> {
    /// Go on to the next Environment.
    fn advance(self) -> (result: LoadStep<S>)
        requires
            self.next <= self.environments@.len(),
        ensures
            result.view() == next_step(self.view()),
    {
        let mut memory = self;
        while memory.next < memory.environments.len()
            invariant
                memory.next <= memory.environments@.len(),
                next_step(self.view()) == next_step(memory.view()),
            decreases memory.environments@.len() - memory.next,
        {
            let ghost now = memory.view();
            assert(now.at_hand() == memory.environments@[memory.next as int]@);
            if memory.registry.method_for(memory.environments[memory.next].method).is_some() {
                return LoadStep::Fetch(FetchTurn { memory });
            }
            let failure = Failure {
                environment: memory.environments[memory.next].environment.clone(),
                reason: FetchFailReason::Other,
                detail: "no method configured for this Environment".to_owned(),
            };
            push_failure(&mut memory.failures, failure);
            memory.next = memory.next + 1;
            assert(memory.view() =~= now.with_failure(no_method(now.at_hand())));
        }
        if memory.failures.len() > 0 {
            LoadStep::Done(Err(AppError { failures: memory.failures }))
        } else {
            LoadStep::Done(Ok(LoadedSets { sets: memory.sets, corrected: memory.corrected }))
        }
    }

    fn fail(self, failure: Failure) -> (result: LoadStep<S>)
        requires
            self.next < self.environments@.len(),
        ensures
            result.view() == next_step(self.view().with_failure(failure@)),
    {
        let mut memory = self;
        let ghost now = memory.view();
        assert(memory.next < memory.environments.len());
        push_failure(&mut memory.failures, failure);
        memory.next = memory.next + 1;
        assert(memory.view() =~= now.with_failure(failure@));
        memory.advance()
    }

    fn settle(self, set: S, patched: Option<Mapping>) -> (result: LoadStep<S>)
        requires
            self.next < self.environments@.len(),
        ensures
            result.view() == next_step(
                match patched {
                    Some(p) => self.view().with_corrected(set, p@),
                    None => self.view().with_set(set),
                },
            ),
    {
        let mut memory = self;
        let ghost now = memory.view();
        assert(now.at_hand() == memory.environments@[memory.next as int]@);
        let name = memory.environments[memory.next].environment.clone();
        let ghost sets = memory.sets@;
        memory.sets.push((name, set));
        assert(set_views(memory.sets@) =~= set_views(sets).push((name@, set)));
        assert(memory.next < memory.environments.len());
        memory.next = memory.next + 1;
        match patched {
            Some(p) => {
                let ghost corrected = memory.corrected@;
                memory.corrected.push(p);
                assert(mapping_views(memory.corrected@) =~= mapping_views(corrected).push(p@));
                assert(memory.view() =~= now.with_corrected(set, p@));
            },
            None => {
                assert(memory.view() =~= now.with_set(set));
            },
        }
        memory.advance()
    }
}

/// Begin a load of these Environments.
pub fn begin<S>(environments: Vec<Mapping>, registry: Registry) -> (result: LoadStep<S>)
    ensures
        result.view() == first_step::<S>(mapping_views(environments@), registry),
{
    let memory: LoadMemory<S> = LoadMemory {
        environments,
        registry,
        next: 0,
        sets: Vec::new(),
        failures: Vec::new(),
        corrected: Vec::new(),
    };
    proof {
        assert(set_views(memory.sets@) =~= Seq::empty());
        assert(failure_views(memory.failures@) =~= Seq::empty());
        assert(mapping_views(memory.corrected@) =~= Seq::empty());
    }
    memory.advance()
}

impl<S> FetchTurn<S> {
    /// The Environment to fetch.
    pub fn mapping(&self) -> (result: &Mapping)
        ensures
            result@ == self.memory().at_hand(),
    {
        proof {
            use_type_invariant(self);
        }
        assert(self.memory().at_hand() == self.memory.environments@[self.memory.next as int]@);
        &self.memory.environments[self.memory.next]
    }

    /// Take the outcome of the fetch.
    pub fn resume(self, reply: Result<S, MethodError>) -> (result: LoadStep<S>)
        ensures
            result.view() == after_fetch(self.memory(), fetch_reply(reply)),
    {
        proof {
            use_type_invariant(&self);
        }
        let memory = self.memory;
        assert(memory.view().at_hand() == memory.environments@[memory.next as int]@);
        match reply {
            Ok(set) => memory.settle(set, None),
            Err(MethodError::Session(SessionError::RoleNotEntitled { context })) => {
                LoadStep::Recover(RecoverTurn { memory, context })
            },
            Err(e) => {
                let failure = fail_method(&memory.environments[memory.next], &e);
                memory.fail(failure)
            },
        }
    }
}

impl<S> RecoverTurn<S> {
    /// The Environment at hand. The roles to list are those of its account.
    pub fn mapping(&self) -> (result: &Mapping)
        ensures
            result@ == self.memory().at_hand(),
    {
        proof {
            use_type_invariant(self);
        }
        assert(self.memory().at_hand() == self.memory.environments@[self.memory.next as int]@);
        &self.memory.environments[self.memory.next]
    }

    /// Take the outcome of the listing.
    pub fn resume(self, reply: Result<Vec<RoleSummary>, SessionError>) -> (result: LoadStep<S>)
        ensures
            result.view() == after_roles(self.memory(), self.context(), listed(reply)),
    {
        proof {
            use_type_invariant(&self);
        }
        let memory = self.memory;
        let context = self.context;
        assert(memory.view().at_hand() == memory.environments@[memory.next as int]@);
        if let RoleResolution::Single(role) = recover_role(&reply) {
            if role != memory.environments[memory.next].permission_set {
                let mut patched = memory.environments[memory.next].clone();
                patched.permission_set = role;
                return LoadStep::Retry(RetryTurn { memory, patched });
            }
        }
        let failure = Failure {
            environment: memory.environments[memory.next].environment.clone(),
            reason: FetchFailReason::AccessDenied,
            detail: context,
        };
        memory.fail(failure)
    }
}

impl<S> RetryTurn<S> {
    /// The Environment to fetch, with the corrected role.
    pub fn mapping(&self) -> (result: &Mapping)
        ensures
            result@ == self.patched(),
    {
        &self.patched
    }

    /// Take the outcome of the fetch. There is no second recovery.
    pub fn resume(self, reply: Result<S, MethodError>) -> (result: LoadStep<S>)
        ensures
            result.view() == after_retry(self.memory(), self.patched(), fetch_reply(reply)),
    {
        proof {
            use_type_invariant(&self);
        }
        let memory = self.memory;
        assert(memory.view().at_hand() == memory.environments@[memory.next as int]@);
        match reply {
            Ok(set) => memory.settle(set, Some(self.patched)),
            Err(e) => {
                let failure = fail_method(&memory.environments[memory.next], &e);
                memory.fail(failure)
            },
        }
    }
}

} // verus!
